//! Options of the host bridge: the shared-memory channel between the
//! sidecar and the host.
use vstd::prelude::*;

use crate::text::{decimal, digit_char, push_char, push_decimal, push_str};

verus! {

/// Default name of the shared-memory object.
pub fn default_name() -> (r: String)
    ensures
        r@ == "kaze"@,
{
    broadcast use vstd::string::group_string_axioms;
    "kaze".to_string()
}

/// By default an existing shared-memory object is unlinked.
pub fn default_unlink() -> (r: bool)
    ensures
        r,
{
    true
}

/// Host bridge configuration.
pub struct Options {
    /// Name of the shared-memory object.
    pub name: String,
    /// Identifier for the shared-memory object: an IPv4 address as its
    /// 32-bit big-endian value.
    pub ident: u32,
    /// Size of the buffer in bytes for shared memory.
    pub bufsize: usize,
    /// Unlink the shared-memory object if it exists.
    pub unlink: bool,
}

impl Options {
    /// Options with the default name, the unspecified address, the given
    /// buffer size and unlinking on.
    pub fn new(bufsize: usize) -> (r: Self)
        ensures
            r.name@ == "kaze"@,
            r.ident == 0,
            r.bufsize == bufsize,
            r.unlink,
    {
        Options { name: default_name(), ident: 0, bufsize, unlink: default_unlink() }
    }

    pub fn with_name(self, name: String) -> (r: Self)
        ensures
            r.name == name,
            r.ident == self.ident,
            r.bufsize == self.bufsize,
            r.unlink == self.unlink,
    {
        Options { name, ..self }
    }

    pub fn with_ident(self, ident: u32) -> (r: Self)
        ensures
            r.name == self.name,
            r.ident == ident,
            r.bufsize == self.bufsize,
            r.unlink == self.unlink,
    {
        Options { ident, ..self }
    }

    pub fn with_bufsize(self, bufsize: usize) -> (r: Self)
        ensures
            r.name == self.name,
            r.ident == self.ident,
            r.bufsize == bufsize,
            r.unlink == self.unlink,
    {
        Options { bufsize, ..self }
    }

    pub fn with_unlink(self, unlink: bool) -> (r: Self)
        ensures
            r.name == self.name,
            r.ident == self.ident,
            r.bufsize == self.bufsize,
            r.unlink == unlink,
    {
        Options { unlink, ..self }
    }
}

/// What to do when the pair of queues of a channel is created: the
/// submission queue of that name may be left over from an earlier bridge.
#[derive(Clone, Copy, Debug, PartialEq, Eq, Structural)]
pub enum ExistingAction {
    /// No submission queue is there: create the pair.
    Create,
    /// Unlink both queues of the old pair, the submission queue and the
    /// completion queue, then create the pair.
    UnlinkFirst,
    /// Leave the old pair alone and fail, naming its owners: it may still
    /// be in use.
    Refuse,
}

/// The action when a submission queue of the channel's name exists
/// (`exists`), with unlinking allowed or not: unlink both queues when it
/// exists and unlinking is allowed, refuse when it exists otherwise.
pub fn existing_action(exists: bool, unlink: bool) -> (r: ExistingAction)
    ensures
        r == (if !exists {
            ExistingAction::Create
        } else if unlink {
            ExistingAction::UnlinkFirst
        } else {
            ExistingAction::Refuse
        }),
{
    if !exists {
        ExistingAction::Create
    } else if unlink {
        ExistingAction::UnlinkFirst
    } else {
        ExistingAction::Refuse
    }
}

/// The owners `(sender, receiver)` set on a new pair by the bridge of
/// process `pid`: it sends on the submission queue and receives on the
/// completion queue; the other side of each queue is left to its peer.
pub fn pair_owners(pid: i32) -> (r: ((Option<i32>, Option<i32>), (Option<i32>, Option<i32>)))
    ensures
        r.0 == (Some(pid), None::<i32>),
        r.1 == (None::<i32>, Some(pid)),
{
    ((Some(pid), None), (None, Some(pid)))
}

/// The IPv4 address `ip` (its 32-bit big-endian value) in dotted-decimal
/// notation.
pub open spec fn dotted_quad(ip: u32) -> Seq<char> {
    decimal(ip as nat / 0x100_0000) + seq!['.'] + decimal((ip as nat / 0x1_0000) % 256) + seq!['.']
        + decimal((ip as nat / 0x100) % 256) + seq!['.'] + decimal(ip as nat % 256)
}

/// The number that the decimal digits `s` spell.
pub open spec fn decimal_value(s: Seq<char>) -> int
    decreases s.len(),
{
    if s.len() == 0 {
        0
    } else {
        decimal_value(s.drop_last()) * 10 + digit_value(s.last())
    }
}

/// The value of a decimal digit character.
pub open spec fn digit_value(c: char) -> int {
    if c == '0' {
        0
    } else if c == '1' {
        1
    } else if c == '2' {
        2
    } else if c == '3' {
        3
    } else if c == '4' {
        4
    } else if c == '5' {
        5
    } else if c == '6' {
        6
    } else if c == '7' {
        7
    } else if c == '8' {
        8
    } else {
        9
    }
}

proof fn lemma_decimal(n: nat)
    ensures
        decimal_value(decimal(n)) == n,
        no_dot(decimal(n)),
    decreases n,
{
    let d = (n % 10) as int;
    assert(digit_value(digit_char(d)) == d);
    if n >= 10 {
        lemma_decimal(n / 10);
        let s = decimal(n);
        assert(s.drop_last() =~= decimal(n / 10));
        assert(s.last() == digit_char(d));
        assert(decimal_value(s) == decimal_value(s.drop_last()) * 10 + digit_value(s.last()));
        assert(n == (n / 10) * 10 + d);
        assert forall|i: int| 0 <= i < s.len() implies #[trigger] s[i] != '.' by {
            if i < s.len() - 1 {
                assert(s[i] == decimal(n / 10)[i]);
            }
        }
    } else {
        let s = decimal(n);
        assert(s.drop_last() =~= Seq::<char>::empty());
        assert(s.last() == digit_char(d));
        assert(decimal_value(s) == decimal_value(s.drop_last()) * 10 + digit_value(s.last()));
    }
}

proof fn lemma_split_at_dot(a1: Seq<char>, r1: Seq<char>, a2: Seq<char>, r2: Seq<char>)
    requires
        a1 + (seq!['.'] + r1) == a2 + (seq!['.'] + r2),
        no_dot(a1),
        no_dot(a2),
    ensures
        a1 == a2,
        r1 == r2,
{
    let s = a1 + (seq!['.'] + r1);
    let t = a2 + (seq!['.'] + r2);
    if a1.len() < a2.len() {
        assert(s[a1.len() as int] == '.');
        assert(t[a1.len() as int] == a2[a1.len() as int]);
    } else if a2.len() < a1.len() {
        assert(t[a2.len() as int] == '.');
        assert(s[a2.len() as int] == a1[a2.len() as int]);
    }
    assert(a1 =~= s.take(a1.len() as int));
    assert(a2 =~= t.take(a2.len() as int));
    assert(r1 =~= s.skip(a1.len() + 1 as int));
    assert(r2 =~= t.skip(a2.len() + 1 as int));
}

proof fn lemma_octets(ip: u32)
    ensures
        ip == (ip / 0x100_0000) * 0x100_0000 + ((ip / 0x1_0000) % 256) * 0x1_0000 + ((ip / 0x100)
            % 256) * 0x100 + ip % 256,
{
    assert(ip == (ip / 0x100_0000) * 0x100_0000 + ((ip / 0x1_0000) % 256) * 0x1_0000 + ((ip
        / 0x100) % 256) * 0x100 + ip % 256) by (bit_vector);
}

/// `s` holds no dot.
pub open spec fn no_dot(s: Seq<char>) -> bool {
    forall|i: int| 0 <= i < s.len() ==> #[trigger] s[i] != '.'
}

proof fn lemma_split_quad(
    a0: Seq<char>,
    a1: Seq<char>,
    a2: Seq<char>,
    a3: Seq<char>,
    b0: Seq<char>,
    b1: Seq<char>,
    b2: Seq<char>,
    b3: Seq<char>,
)
    requires
        no_dot(a0) && no_dot(a1) && no_dot(a2),
        no_dot(b0) && no_dot(b1) && no_dot(b2),
        a0 + seq!['.'] + a1 + seq!['.'] + a2 + seq!['.'] + a3 == b0 + seq!['.'] + b1 + seq!['.'] + b2
            + seq!['.'] + b3,
    ensures
        a0 == b0 && a1 == b1 && a2 == b2 && a3 == b3,
{
    let dot = seq!['.'];
    let ra2 = a2 + (dot + a3);
    let rb2 = b2 + (dot + b3);
    let ra1 = a1 + (dot + ra2);
    let rb1 = b1 + (dot + rb2);
    assert(a0 + dot + a1 + dot + a2 + dot + a3 =~= a0 + (dot + ra1));
    assert(b0 + dot + b1 + dot + b2 + dot + b3 =~= b0 + (dot + rb1));
    lemma_split_at_dot(a0, ra1, b0, rb1);
    lemma_split_at_dot(a1, ra2, b1, rb2);
    lemma_split_at_dot(a2, a3, b2, b3);
}

proof fn lemma_dotted_quad_injective(a: u32, b: u32)
    requires
        dotted_quad(a) == dotted_quad(b),
    ensures
        a == b,
{
    lemma_decimal(a as nat / 0x100_0000);
    lemma_decimal((a as nat / 0x1_0000) % 256);
    lemma_decimal((a as nat / 0x100) % 256);
    lemma_decimal(a as nat % 256);
    lemma_decimal(b as nat / 0x100_0000);
    lemma_decimal((b as nat / 0x1_0000) % 256);
    lemma_decimal((b as nat / 0x100) % 256);
    lemma_decimal(b as nat % 256);
    lemma_split_quad(
        decimal(a as nat / 0x100_0000),
        decimal((a as nat / 0x1_0000) % 256),
        decimal((a as nat / 0x100) % 256),
        decimal(a as nat % 256),
        decimal(b as nat / 0x100_0000),
        decimal((b as nat / 0x1_0000) % 256),
        decimal((b as nat / 0x100) % 256),
        decimal(b as nat % 256),
    );
    lemma_octets(a);
    lemma_octets(b);
}

/// Every node has a channel of its own: different identifiers give
/// different channel names under the same prefix; and the submission and
/// completion queues of a node have different names.
pub proof fn law_channel_names_distinct(prefix: Seq<char>, a: u32, b: u32)
    ensures
        a != b ==> prefix + seq!['_'] + dotted_quad(a) != prefix + seq!['_'] + dotted_quad(b),
        prefix + seq!['_', 's', 'q', '_'] + dotted_quad(a) != prefix + seq!['_', 'c', 'q', '_']
            + dotted_quad(a),
{
    let sa = prefix + seq!['_'] + dotted_quad(a);
    let sb = prefix + seq!['_'] + dotted_quad(b);
    if a != b && sa == sb {
        let k = prefix.len() + 1 as int;
        assert(sa.skip(k) =~= dotted_quad(a));
        assert(sb.skip(k) =~= dotted_quad(b));
        lemma_dotted_quad_injective(a, b);
    }
    let sq = prefix + seq!['_', 's', 'q', '_'] + dotted_quad(a);
    let cq = prefix + seq!['_', 'c', 'q', '_'] + dotted_quad(a);
    assert(sq[prefix.len() + 1 as int] == 's');
    assert(cq[prefix.len() + 1 as int] == 'c');
}

pub(crate) fn push_dotted_quad(s: &mut String, ip: u32)
    ensures
        final(s)@ == old(s)@ + dotted_quad(ip),
{
    let ghost s0 = s@;
    push_decimal(s, (ip / 0x100_0000) as u8);
    push_char(s, '.');
    push_decimal(s, ((ip / 0x1_0000) % 256) as u8);
    push_char(s, '.');
    push_decimal(s, ((ip / 0x100) % 256) as u8);
    push_char(s, '.');
    push_decimal(s, (ip % 256) as u8);
    assert(s@ =~= s0 + dotted_quad(ip));
}

/// Name of the channel of node `ident` under `prefix`: the prefix, an
/// underscore and the address in dotted-decimal notation.
pub fn get_channel_name(prefix: &str, ident: u32) -> (r: String)
    ensures
        r@ == prefix@ + seq!['_'] + dotted_quad(ident),
{
    let mut s = String::new();
    push_str(&mut s, prefix);
    push_char(&mut s, '_');
    push_dotted_quad(&mut s, ident);
    s
}

/// Names of the submission and the completion queue of node `ident` under
/// `prefix`: `<prefix>_sq_<address>` and `<prefix>_cq_<address>`.
pub fn get_kaze_pair_names(prefix: &str, ident: u32) -> (r: (String, String))
    ensures
        r.0@ == prefix@ + seq!['_', 's', 'q', '_'] + dotted_quad(ident),
        r.1@ == prefix@ + seq!['_', 'c', 'q', '_'] + dotted_quad(ident),
{
    let mut sq = String::new();
    push_str(&mut sq, prefix);
    push_char(&mut sq, '_');
    push_char(&mut sq, 's');
    push_char(&mut sq, 'q');
    push_char(&mut sq, '_');
    push_dotted_quad(&mut sq, ident);
    let mut cq = String::new();
    push_str(&mut cq, prefix);
    push_char(&mut cq, '_');
    push_char(&mut cq, 'c');
    push_char(&mut cq, 'q');
    push_char(&mut cq, '_');
    push_dotted_quad(&mut cq, ident);
    proof {
        assert(sq@ =~= prefix@ + seq!['_', 's', 'q', '_'] + dotted_quad(ident));
        assert(cq@ =~= prefix@ + seq!['_', 'c', 'q', '_'] + dotted_quad(ident));
    }
    (sq, cq)
}

/// The system's memory page size (`page_size::get`). It depends on the
/// machine, so nothing is stated of it.
#[verifier::external_body]
fn system_page_size() -> usize {
    page_size::get()
}

/// Eight pages of `page` bytes, or `None` where that does not fit in
/// `usize`.
pub open spec fn eight_pages(page: usize) -> Option<usize> {
    if page * 8 <= usize::MAX {
        Some((page * 8) as usize)
    } else {
        None
    }
}

/// Default buffer size for a page size of `page` bytes: eight pages, or
/// `None` where that does not fit in `usize`.
pub fn bufsize_for_page(page: usize) -> (r: Option<usize>)
    ensures
        r == eight_pages(page),
{
    page.checked_mul(8)
}

/// Default buffer size of the channel: eight pages of this system, whose
/// page size the machine decides.
pub fn default_bufsize() -> (r: Option<usize>)
    ensures
        exists|page: usize| r == #[trigger] eight_pages(page),
        r matches Some(n) ==> n % 8 == 0,
{
    let page = system_page_size();
    let r = bufsize_for_page(page);
    assert(r == eight_pages(page));
    r
}

} // verus!
