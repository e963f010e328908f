use lcs::lcs;
use lcs::lcs_length;

#[test]
fn it_works() {
    assert_eq!(lcs("nawigator", "nowator"), "nwator");
}

#[test]
fn test_five() {
    assert_eq!(lcs("algorytm", "program"), "grm");
    assert_eq!(lcs("longest", "common"), "on");
    assert_eq!(lcs("bacbacba", "abbaac"), "baac");
    assert_eq!(lcs("rust", "crust"), "rust");
    assert_eq!(lcs("calkowita", "zmiennoprzecinkowa"), "ckowa");
}

#[test]
fn test_length() {
    assert_eq!(lcs_length("algorytm", "program"), 3);
    assert_eq!(lcs_length("longest", "common"), 2);
    assert_eq!(lcs_length("bacbacba", "abbaac"), 4);
    assert_eq!(lcs_length("rust", "crust"), 4);
    assert_eq!(lcs_length("calkowita", "zmiennoprzecinkowa"), 5);
}

#[test]
fn further_scenarios() {
    assert_eq!(lcs("gac", "agcat"), "ga");
    assert_eq!(lcs_length("gac", "agcat"), 2);
    assert_eq!(lcs_length("rust", "crust"), 4);
    assert_eq!(lcs_length("nawigator", "nowator"), 6);
}

#[test]
fn empty_inputs() {
    assert_eq!(lcs("", "program"), "");
    assert_eq!(lcs("program", ""), "");
    assert_eq!(lcs("", ""), "");
    assert_eq!(lcs_length("", "program"), 0);
    assert_eq!(lcs_length("program", ""), 0);
    assert_eq!(lcs_length("", ""), 0);
}

#[test]
fn no_common_units() {
    assert_eq!(lcs("abc", "xyz"), "");
    assert_eq!(lcs_length("abc", "xyz"), 0);
}

#[test]
fn identity_input() {
    assert_eq!(lcs("abcabc", "abcabc"), "abcabc");
    assert_eq!(lcs_length("abcabc", "abcabc"), 6);
}

#[test]
fn length_is_symmetric() {
    let pairs = [
        ("algorytm", "program"),
        ("bacbacba", "abbaac"),
        ("gac", "agcat"),
        ("", "x"),
        ("rust", "crust"),
    ];
    for (a, b) in pairs {
        assert_eq!(lcs_length(a, b), lcs_length(b, a));
    }
}

#[test]
fn lcs_and_length_agree() {
    let pairs = [
        ("algorytm", "program"),
        ("bacbacba", "abbaac"),
        ("gac", "agcat"),
        ("nawigator", "nowator"),
        ("longest", "common"),
        ("", ""),
    ];
    for (a, b) in pairs {
        assert_eq!(lcs(a, b).chars().count() as u32, lcs_length(a, b));
    }
}

#[test]
fn result_is_common_subsequence() {
    let pairs = [
        ("algorytm", "program"),
        ("bacbacba", "abbaac"),
        ("gac", "agcat"),
        ("nawigator", "nowator"),
    ];
    for (a, b) in pairs {
        let r = lcs(a, b);
        for t in [a, b] {
            let mut it = t.chars();
            for c in r.chars() {
                assert!(it.any(|u| u == c), "{r:?} is not a subsequence of {t:?}");
            }
        }
    }
}
