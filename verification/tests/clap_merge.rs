use clap::{Arg, ArgMatches, Command};
use kaze::clap_merge::ClapMerge;

#[derive(Default)]
struct Named {
    name: Option<String>,
}

impl ClapMerge for Named {
    fn merge(&mut self, args: &ArgMatches) -> bool {
        match args.get_one::<String>("name") {
            Some(n) => {
                self.name = Some(n.clone());
                true
            }
            None => false,
        }
    }
}

fn matches(argv: &[&str]) -> ArgMatches {
    Command::new("t").arg(Arg::new("name").long("name")).get_matches_from(argv)
}

#[test]
fn absent_value_appears_only_when_updated() {
    let mut v: Option<Named> = None;
    assert!(!v.merge(&matches(&["t"])));
    assert!(v.is_none());
    assert!(v.merge(&matches(&["t", "--name", "x"])));
    assert_eq!(v.as_ref().unwrap().name.as_deref(), Some("x"));
}

#[test]
fn present_value_takes_the_merge() {
    let mut v = Some(Named { name: Some("a".to_string()) });
    assert!(!v.merge(&matches(&["t"])));
    assert_eq!(v.as_ref().unwrap().name.as_deref(), Some("a"));
    assert!(v.merge(&matches(&["t", "--name", "b"])));
    assert_eq!(v.as_ref().unwrap().name.as_deref(), Some("b"));
}
