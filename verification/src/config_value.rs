//! Configuration values read from TOML files, and how the values of several
//! files are merged: tables are merged key by key, any other value of a
//! later file replaces the earlier one.
use vstd::prelude::*;

verus! {

#[verifier::external_type_specification]
#[verifier::external_body]
pub struct ExTomlValue(toml::Value);

/// A configuration value: a table of named values, in order, or any other
/// TOML value (string, number, boolean, date or array).
#[derive(Debug, PartialEq)]
pub enum ConfValue {
    Table(Vec<(String, ConfValue)>),
    Value(toml::Value),
}

/// A configuration value by value: keys as character sequences.
pub enum ConfModel {
    Table(Seq<(Seq<char>, ConfModel)>),
    Value(toml::Value),
}

pub open spec fn model(v: ConfValue) -> ConfModel
    decreases v,
{
    match v {
        ConfValue::Table(es) => ConfModel::Table(model_entries(es@)),
        ConfValue::Value(x) => ConfModel::Value(x),
    }
}

pub open spec fn model_entries(es: Seq<(String, ConfValue)>) -> Seq<(Seq<char>, ConfModel)>
    decreases es,
{
    if es.len() == 0 {
        Seq::empty()
    } else {
        model_entries(es.drop_last()).push((es.last().0@, model(es.last().1)))
    }
}

impl View for ConfValue {
    type V = ConfModel;

    open spec fn view(&self) -> ConfModel {
        model(*self)
    }
}

/// `i` is the first position of key `k` in `es`.
pub open spec fn is_first_key(es: Seq<(Seq<char>, ConfModel)>, k: Seq<char>, i: int) -> bool {
    &&& 0 <= i < es.len()
    &&& es[i].0 == k
    &&& forall|j: int| 0 <= j < i ==> es[j].0 != k
}

/// `b` merged over `a`: two tables are merged entry by entry, otherwise `b`
/// replaces `a`.
pub open spec fn merged(a: ConfModel, b: ConfModel) -> ConfModel
    decreases b, 0nat,
{
    match b {
        ConfModel::Table(eb) => match a {
            ConfModel::Table(ea) => ConfModel::Table(merged_entries(ea, eb)),
            ConfModel::Value(_) => b,
        },
        ConfModel::Value(_) => b,
    }
}

/// The entries `eb` merged, in order, into the entries `ea`.
pub open spec fn merged_entries(
    ea: Seq<(Seq<char>, ConfModel)>,
    eb: Seq<(Seq<char>, ConfModel)>,
) -> Seq<(Seq<char>, ConfModel)>
    decreases eb, 0nat,
{
    if eb.len() == 0 {
        ea
    } else {
        with_entry(merged_entries(ea, eb.drop_last()), eb.last().0, eb.last().1)
    }
}

/// The entry `k = v` merged into `es`: over the value of `k` where `es` has
/// one, otherwise added at the end.
pub open spec fn with_entry(es: Seq<(Seq<char>, ConfModel)>, k: Seq<char>, v: ConfModel) -> Seq<
    (Seq<char>, ConfModel),
>
    decreases v, 1nat,
{
    if exists|i: int| is_first_key(es, k, i) {
        let i = choose|i: int| is_first_key(es, k, i);
        es.update(i, (k, merged(es[i].1, v)))
    } else {
        es.push((k, v))
    }
}

/// The documents merged in order, starting from the empty table.
pub open spec fn merged_all(docs: Seq<ConfModel>) -> ConfModel
    decreases docs.len(),
{
    if docs.len() == 0 {
        ConfModel::Table(Seq::empty())
    } else {
        merged(merged_all(docs.drop_last()), docs.last())
    }
}

/// The value of key `k` in `es`: that of its first entry.
pub open spec fn lookup(es: Seq<(Seq<char>, ConfModel)>, k: Seq<char>) -> Option<ConfModel> {
    if exists|i: int| is_first_key(es, k, i) {
        Some(es[choose|i: int| is_first_key(es, k, i)].1)
    } else {
        None
    }
}

/// No two entries of `es` have the same key.
pub open spec fn unique_keys(es: Seq<(Seq<char>, ConfModel)>) -> bool {
    forall|i: int, j: int| 0 <= i < j < es.len() ==> es[i].0 != es[j].0
}

proof fn lemma_first_unique(es: Seq<(Seq<char>, ConfModel)>, k: Seq<char>, i: int, j: int)
    requires
        is_first_key(es, k, i),
        is_first_key(es, k, j),
    ensures
        i == j,
{
    if i < j {
        assert(es[i].0 == k);
    } else if j < i {
        assert(es[j].0 == k);
    }
}

proof fn lemma_lookup_at(es: Seq<(Seq<char>, ConfModel)>, k: Seq<char>, i: int)
    requires
        is_first_key(es, k, i),
    ensures
        lookup(es, k) == Some(es[i].1),
{
    let c = choose|x: int| is_first_key(es, k, x);
    lemma_first_unique(es, k, c, i);
}

proof fn lemma_lookup_absent(es: Seq<(Seq<char>, ConfModel)>, k: Seq<char>)
    requires
        forall|j: int| 0 <= j < es.len() ==> es[j].0 != k,
    ensures
        lookup(es, k) == None::<ConfModel>,
{
    if exists|x: int| is_first_key(es, k, x) {
        let x = choose|x: int| is_first_key(es, k, x);
        assert(es[x].0 == k);
    }
}

/// Some entry of `es` has key `k` exactly when `k` has a first entry.
proof fn lemma_first_exists(es: Seq<(Seq<char>, ConfModel)>, k: Seq<char>, i: int)
    requires
        0 <= i < es.len(),
        es[i].0 == k,
    ensures
        exists|x: int| is_first_key(es, k, x),
    decreases i,
{
    if exists|j: int| 0 <= j < i && es[j].0 == k {
        let j = choose|j: int| 0 <= j < i && es[j].0 == k;
        lemma_first_exists(es, k, j);
    } else {
        assert(is_first_key(es, k, i));
    }
}

/// Two entry lists with the same keys and the same value wherever the key
/// is `k` give the same lookup of `k`.
proof fn lemma_lookup_same(a: Seq<(Seq<char>, ConfModel)>, b: Seq<(Seq<char>, ConfModel)>, k: Seq<char>)
    requires
        a.len() == b.len(),
        forall|j: int| 0 <= j < a.len() ==> #[trigger] a[j].0 == b[j].0,
        forall|j: int| 0 <= j < a.len() && a[j].0 == k ==> #[trigger] a[j].1 == b[j].1,
    ensures
        lookup(a, k) == lookup(b, k),
{
    if exists|x: int| is_first_key(a, k, x) {
        let x = choose|x: int| is_first_key(a, k, x);
        assert(a[x].0 == b[x].0);
        assert(is_first_key(b, k, x)) by {
            assert forall|j: int| 0 <= j < x implies b[j].0 != k by {
                assert(a[j].0 == b[j].0);
            }
        }
        lemma_lookup_at(a, k, x);
        lemma_lookup_at(b, k, x);
    } else {
        assert forall|j: int| 0 <= j < b.len() implies b[j].0 != k by {
            assert(a[j].0 == b[j].0);
            if a[j].0 == k {
                lemma_first_exists(a, k, j);
            }
        }
        assert forall|j: int| 0 <= j < a.len() implies a[j].0 != k by {
            if a[j].0 == k {
                lemma_first_exists(a, k, j);
            }
        }
        lemma_lookup_absent(a, k);
        lemma_lookup_absent(b, k);
    }
}

/// What merging one entry does to the lookup of a key.
proof fn lemma_with_entry_lookup(es: Seq<(Seq<char>, ConfModel)>, kl: Seq<char>, vl: ConfModel, k: Seq<char>)
    ensures
        lookup(with_entry(es, kl, vl), k) == (if k == kl {
            Some(
                match lookup(es, k) {
                    Some(x) => merged(x, vl),
                    None => vl,
                },
            )
        } else {
            lookup(es, k)
        }),
{
    let w = with_entry(es, kl, vl);
    if exists|i: int| is_first_key(es, kl, i) {
        let i = choose|i: int| is_first_key(es, kl, i);
        assert(w == es.update(i, (kl, merged(es[i].1, vl))));
        if k == kl {
            assert(is_first_key(w, k, i));
            lemma_lookup_at(w, k, i);
            lemma_lookup_at(es, k, i);
        } else {
            lemma_lookup_same(es, w, k);
        }
    } else {
        assert(w == es.push((kl, vl)));
        if k == kl {
            assert forall|j: int| 0 <= j < es.len() implies es[j].0 != k by {
                if es[j].0 == k {
                    lemma_first_exists(es, k, j);
                }
            }
            assert(is_first_key(w, k, es.len() as int));
            lemma_lookup_at(w, k, es.len() as int);
            lemma_lookup_absent(es, k);
        } else {
            if exists|x: int| is_first_key(es, k, x) {
                let x = choose|x: int| is_first_key(es, k, x);
                assert(is_first_key(w, k, x));
                lemma_lookup_at(w, k, x);
                lemma_lookup_at(es, k, x);
            } else {
                assert forall|j: int| 0 <= j < w.len() implies w[j].0 != k by {
                    if j < es.len() && es[j].0 == k {
                        lemma_first_exists(es, k, j);
                    }
                }
                lemma_lookup_absent(w, k);
            }
        }
    }
}

/// What a later file gives a key, when the tables are merged: a key that
/// only the earlier table has keeps its value, a key that only the later
/// table has takes the later value, and a key both have takes the later
/// value merged over the earlier one (a plain later value replaces it).
pub proof fn law_later_overrides(ea: Seq<(Seq<char>, ConfModel)>, eb: Seq<(Seq<char>, ConfModel)>, k: Seq<char>)
    requires
        unique_keys(eb),
    ensures
        lookup(merged_entries(ea, eb), k) == match lookup(eb, k) {
            None => lookup(ea, k),
            Some(y) => Some(
                match lookup(ea, k) {
                    Some(x) => merged(x, y),
                    None => y,
                },
            ),
        },
    decreases eb.len(),
{
    if eb.len() > 0 {
        let pre = eb.drop_last();
        let (kl, vl) = eb.last();
        assert(unique_keys(pre));
        law_later_overrides(ea, pre, k);
        lemma_with_entry_lookup(merged_entries(ea, pre), kl, vl, k);
        if k == kl {
            assert forall|j: int| 0 <= j < pre.len() implies pre[j].0 != k by {
                assert(eb[j].0 != eb[eb.len() - 1].0);
            }
            lemma_lookup_absent(pre, k);
            assert(is_first_key(eb, k, eb.len() - 1));
            lemma_lookup_at(eb, k, eb.len() - 1);
        } else {
            if exists|x: int| is_first_key(pre, k, x) {
                let x = choose|x: int| is_first_key(pre, k, x);
                assert(is_first_key(eb, k, x));
                lemma_lookup_at(eb, k, x);
                lemma_lookup_at(pre, k, x);
            } else {
                assert forall|j: int| 0 <= j < eb.len() implies eb[j].0 != k by {
                    if j < pre.len() && pre[j].0 == k {
                        lemma_first_exists(pre, k, j);
                    }
                }
                lemma_lookup_absent(eb, k);
                lemma_lookup_absent(pre, k);
            }
        }
    } else {
        lemma_lookup_absent(eb, k);
    }
}

proof fn lemma_model_entries(es: Seq<(String, ConfValue)>)
    ensures
        model_entries(es).len() == es.len(),
        forall|i: int|
            0 <= i < es.len() ==> #[trigger] model_entries(es)[i] == (es[i].0@, model(es[i].1)),
    decreases es.len(),
{
    if es.len() > 0 {
        lemma_model_entries(es.drop_last());
    }
}

/// Position of the first entry with key `k`.
fn key_position(es: &Vec<(String, ConfValue)>, k: &String) -> (r: Option<usize>)
    ensures
        r matches Some(i) ==> i < es@.len() && es@[i as int].0@ == k@ && forall|j: int|
            0 <= j < i ==> es@[j].0@ != k@,
        r is None ==> forall|j: int| 0 <= j < es@.len() ==> es@[j].0@ != k@,
{
    let mut i: usize = 0;
    while i < es.len()
        invariant
            i <= es@.len(),
            forall|j: int| 0 <= j < i ==> es@[j].0@ != k@,
        decreases es@.len() - i,
    {
        if es[i].0 == *k {
            return Some(i);
        }
        i = i + 1;
    }
    None
}

/// Merge `b` over `a`.
pub fn merge(a: ConfValue, b: ConfValue) -> (r: ConfValue)
    ensures
        r@ == merged(a@, b@),
    decreases b, 0nat,
{
    match b {
        ConfValue::Table(eb) => match a {
            ConfValue::Table(ea) => ConfValue::Table(merge_entries(ea, eb)),
            ConfValue::Value(_) => ConfValue::Table(eb),
        },
        ConfValue::Value(y) => ConfValue::Value(y),
    }
}

fn merge_entries(ea: Vec<(String, ConfValue)>, eb: Vec<(String, ConfValue)>) -> (r: Vec<
    (String, ConfValue),
>)
    ensures
        model_entries(r@) == merged_entries(model_entries(ea@), model_entries(eb@)),
    decreases eb, 0nat,
{
    let ghost orig = eb@;
    let ghost start = model_entries(ea@);
    let n: usize = eb.len();
    let mut acc = ea;
    let mut rest = eb;
    let mut j: usize = 0;
    proof {
        assert(orig.take(0) =~= Seq::<(String, ConfValue)>::empty());
        assert(orig.skip(0) =~= orig);
    }
    while rest.len() > 0
        invariant
            j <= orig.len(),
            orig.len() == n,
            orig == eb@,
            rest@ == orig.skip(j as int),
            model_entries(acc@) == merged_entries(start, model_entries(orig.take(j as int))),
        decreases rest@.len(),
    {
        let ghost before = model_entries(acc@);
        proof {
            assert(orig.skip(j as int).len() > 0);
        }
        let (k, v) = rest.remove(0);
        proof {
            assert(orig[j as int] == (k, v));
            assert(decreases_to!(eb => eb@));
            assert(decreases_to!(eb@ => eb@[j as int]));
            assert(decreases_to!(eb@[j as int] => eb@[j as int].1));
            assert(rest@ =~= orig.skip(j + 1));
        }
        with_entry_into(&mut acc, k, v);
        proof {
            let t = orig.take(j + 1);
            assert(t.drop_last() =~= orig.take(j as int));
            assert(model_entries(t) == model_entries(orig.take(j as int)).push(
                (orig[j as int].0@, model(orig[j as int].1)),
            ));
            let mt = model_entries(t);
            assert(mt.drop_last() =~= model_entries(orig.take(j as int)));
        }
        j = j + 1;
    }
    proof {
        assert(orig.take(j as int) =~= orig);
    }
    acc
}

fn with_entry_into(es: &mut Vec<(String, ConfValue)>, k: String, v: ConfValue)
    ensures
        model_entries(final(es)@) == with_entry(model_entries(old(es)@), k@, v@),
    decreases v, 1nat,
{
    let ghost m = model_entries(es@);
    proof {
        lemma_model_entries(es@);
    }
    match key_position(es, &k) {
        Some(i) => {
            let ghost old_es = es@;
            let (ek, ev) = es.remove(i);
            let mv = merge(ev, v);
            es.insert(i, (ek, mv));
            proof {
                assert(es@ =~= old_es.update(i as int, (ek, mv)));
                lemma_model_entries(es@);
                assert(is_first_key(m, k@, i as int));
                assert(exists|x: int| is_first_key(m, k@, x));
                let c = choose|x: int| is_first_key(m, k@, x);
                assert(c == i as int) by {
                    if c < i {
                        assert(m[c].0 == k@);
                    } else if c > i {
                        assert(m[i as int].0 == k@);
                    }
                }
                assert(model_entries(es@) =~= m.update(i as int, (k@, merged(m[i as int].1, v@))));
            }
        },
        None => {
            let ghost old_es = es@;
            es.push((k, v));
            proof {
                assert(es@.drop_last() =~= old_es);
                assert(!exists|x: int| is_first_key(m, k@, x)) by {
                    if exists|x: int| is_first_key(m, k@, x) {
                        let x = choose|x: int| is_first_key(m, k@, x);
                        assert(m[x].0 == old_es[x].0@);
                    }
                }
            }
        },
    }
}

/// The configuration of the files' documents merged in order, a later one
/// overriding an earlier one, starting from the empty table.
pub fn build(docs: Vec<ConfValue>) -> (r: ConfValue)
    ensures
        r@ == merged_all(docs@.map_values(|d: ConfValue| d@)),
{
    let ghost all = docs@.map_values(|d: ConfValue| d@);
    let n: usize = docs.len();
    let mut value = ConfValue::Table(Vec::new());
    let mut rest = docs;
    let mut j: usize = 0;
    proof {
        assert(all.take(0) =~= Seq::<ConfModel>::empty());
        assert(model_entries(Seq::<(String, ConfValue)>::empty()) =~= Seq::<
            (Seq<char>, ConfModel),
        >::empty());
        assert(rest@.map_values(|d: ConfValue| d@) =~= all.skip(0));
    }
    while rest.len() > 0
        invariant
            j <= all.len(),
            all.len() == n,
            rest@.map_values(|d: ConfValue| d@) == all.skip(j as int),
            value@ == merged_all(all.take(j as int)),
        decreases rest@.len(),
    {
        let ghost rs = rest@;
        proof {
            assert(rs.map_values(|d: ConfValue| d@).len() == rs.len());
            assert(j < all.len());
        }
        let d = rest.remove(0);
        proof {
            assert(rs.map_values(|d: ConfValue| d@)[0] == d@);
            assert(all.skip(j as int)[0] == all[j as int]);
            assert(all[j as int] == d@);
            assert(rest@ =~= rs.skip(1));
            assert(rest@.map_values(|d: ConfValue| d@) =~= rs.map_values(|d: ConfValue| d@).skip(1));
            assert(rest@.map_values(|d: ConfValue| d@) =~= all.skip(j + 1));
            assert(all.take(j + 1).drop_last() =~= all.take(j as int));
        }
        value = merge(value, d);
        j = j + 1;
    }
    proof {
        assert(all.take(j as int) =~= all);
    }
    value
}

} // verus!
