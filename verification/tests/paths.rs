use std::path::Path;
use tokimo_vm::path::{
    canonical_text, components_of, join_path, parent, starts_with, stays_in, strip_root,
};

const SAMPLES: [&str; 36] = [
    "", "/", "//", "///", ".", "./", "..", "../", "/.", "/..", "a", "a/", "a//", "/a", "/a/",
    "//a", "a/b", "a//b", "a/./b", "a/../b", "./a", "././a", ".//a", "/./a", "/a/.", "/a/./",
    "/a/b/c", "/a//b/./c/", "...", ".a", "a.", "/.a/b", "a/.", "a/..", "/é/ü", " / ",
];

#[test]
fn components_agree_with_std() {
    for s in SAMPLES {
        let ours = components_of(s);
        let std: Vec<String> = Path::new(s)
            .components()
            .map(|c| c.as_os_str().to_str().unwrap().to_string())
            .collect();
        assert_eq!(ours, std, "components of {s:?}");
    }
}

#[test]
fn parents_agree_with_std() {
    for s in SAMPLES {
        let std = Path::new(s).parent().map(|p| p.to_str().unwrap().to_string());
        assert_eq!(parent(s), std, "parent of {s:?}");
    }
}

#[test]
fn joining_agrees_with_std() {
    for a in SAMPLES {
        for b in SAMPLES {
            let std = Path::new(a).join(b).to_str().unwrap().to_string();
            assert_eq!(join_path(a, b), std, "{a:?} join {b:?}");
        }
    }
}

#[test]
fn stripping_the_root_agrees_with_std() {
    for s in SAMPLES {
        let p = Path::new(s);
        let std = p.strip_prefix("/").unwrap_or(p).to_str().unwrap().to_string();
        assert_eq!(strip_root(s), std, "strip root of {s:?}");
    }
}

#[test]
fn prefixes_agree_with_std() {
    for a in SAMPLES {
        for b in SAMPLES {
            assert_eq!(starts_with(a, b), Path::new(a).starts_with(b), "{a:?} under {b:?}");
        }
    }
}

#[test]
fn canonical_spelling_decides_equality_as_std_does() {
    for a in SAMPLES {
        for b in SAMPLES {
            assert_eq!(
                canonical_text(a) == canonical_text(b),
                Path::new(a) == Path::new(b),
                "{a:?} and {b:?}"
            );
        }
    }
}

#[test]
fn a_path_stays_where_it_does_not_climb_out() {
    assert!(stays_in("/srv", "/srv"));
    assert!(stays_in("/srv/a/../b", "/srv"));
    assert!(stays_in("/srv/a/..", "/srv"));
    assert!(!stays_in("/srv/..", "/srv"));
    assert!(!stays_in("/srv/../srv/a", "/srv"));
    assert!(!stays_in("/srv/a/../../b", "/srv"));
    assert!(!stays_in("/srvx/a", "/srv"));
    assert!(stays_in("/srv/...", "/srv"));
}
