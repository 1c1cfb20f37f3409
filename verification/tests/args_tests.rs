use wrun::args::{set_args, Args};

fn values(xs: &[&str]) -> Vec<String> {
    xs.iter().map(|x| x.to_string()).collect()
}

#[test]
fn starts_empty() {
    let a = Args::new();
    assert_eq!(a.count(), 0);
    assert_eq!(a.all(), Vec::<String>::new());
    assert_eq!(a.first(), "");
    assert_eq!(a.last(), "");
    assert!(!a.has(0));
}

#[test]
fn set_and_read_back() {
    let mut a = Args::new();
    set_args(&mut a, values(&["build", "--fast", "x"]));
    assert_eq!(a.count(), 3);
    assert_eq!(a.all(), values(&["build", "--fast", "x"]));
    assert_eq!(a.get(0), "build");
    assert_eq!(a.get(2), "x");
    assert_eq!(a.get(3), "");
    assert_eq!(a.first(), "build");
    assert_eq!(a.last(), "x");
    assert!(a.has(2));
    assert!(!a.has(3));
}

#[test]
fn replacing_arguments() {
    let mut a = Args::new();
    set_args(&mut a, values(&["one"]));
    set_args(&mut a, values(&["two", "three"]));
    assert_eq!(a.all(), values(&["two", "three"]));
}

#[test]
fn slice_clamps_to_count() {
    let mut a = Args::new();
    set_args(&mut a, values(&["a", "b", "c", "d"]));
    assert_eq!(a.slice(1, 3), values(&["b", "c"]));
    assert_eq!(a.slice(2, 99), values(&["c", "d"]));
    assert_eq!(a.slice(9, 99), Vec::<String>::new());
    assert_eq!(a.slice(2, 2), Vec::<String>::new());
}
