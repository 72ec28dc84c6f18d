use edit_icu::{Error, SearchCursor, Text};

fn snapshot(s: &str) -> Text {
    let mut t = Text::new();
    t.refresh(s.len());
    assert!(t.push_chunk(s.as_bytes()) || s.is_empty());
    assert!(!t.push_chunk(&[]));
    t
}

fn all_matches(c: &mut SearchCursor) -> Vec<std::ops::Range<usize>> {
    let mut v = Vec::new();
    while let Some(m) = c.next() {
        v.push(m);
        assert!(v.len() < 100);
    }
    v
}

#[test]
fn full_one_or_more() {
    let t = snapshot("baaab");
    let mut c = SearchCursor::new("a+", 0, &t).unwrap();
    assert_eq!(c.next(), Some(1..4));
    assert_eq!(c.next(), None);
    c.reset(0);
    assert_eq!(c.next(), Some(1..4));
    assert_eq!(c.next(), None);
}

#[test]
fn full_zero_width_advances() {
    let t = snapshot("ba");
    let mut c = SearchCursor::new("a*", 0, &t).unwrap();
    assert_eq!(all_matches(&mut c), vec![0..0, 1..2, 2..2]);
}

#[test]
fn full_zero_width_skips_whole_code_points() {
    let t = snapshot("é€");
    let mut c = SearchCursor::new("", 0, &t).unwrap();
    assert_eq!(all_matches(&mut c), vec![0..0, 2..2, 5..5]);
}

#[test]
fn full_invalid_pattern() {
    let t = snapshot("abc");
    match SearchCursor::new("(", 0, &t) {
        Err(e) => assert_eq!(e, Error::InvalidPattern),
        Ok(_) => panic!("compiled an unbalanced group"),
    }
}

#[test]
fn full_literal_escapes_metacharacters() {
    let t = snapshot("axb a.b");
    let mut c = SearchCursor::new("a.b", SearchCursor::LITERAL, &t).unwrap();
    assert_eq!(all_matches(&mut c), vec![4..7]);
    let mut d = SearchCursor::new("(", SearchCursor::LITERAL, &snapshot("a(b")).unwrap();
    assert_eq!(d.next(), Some(1..2));
}

#[test]
fn full_flags() {
    let t = snapshot("Cat\ncat");
    let mut c = SearchCursor::new("cat", SearchCursor::CASE_INSENSITIVE, &t).unwrap();
    assert_eq!(all_matches(&mut c), vec![0..3, 4..7]);
    let mut d = SearchCursor::new("^cat$", SearchCursor::MULTILINE, &t).unwrap();
    assert_eq!(all_matches(&mut d), vec![4..7]);
    let mut e = SearchCursor::new("^cat$", 0, &t).unwrap();
    assert_eq!(e.next(), None);
}

#[test]
fn full_groups() {
    let t = snapshot("xab ax");
    let mut c = SearchCursor::new("(a)(b)?", 0, &t).unwrap();
    assert_eq!(c.group_count(), 0);
    assert_eq!(c.group(0), None);
    assert_eq!(c.next(), Some(1..3));
    assert_eq!(c.group_count(), 2);
    assert_eq!(c.group(0), Some(1..3));
    assert_eq!(c.group(1), Some(1..2));
    assert_eq!(c.group(2), Some(2..3));
    assert_eq!(c.group(3), None);
    assert_eq!(c.group(-1), None);
    assert_eq!(c.next(), Some(4..5));
    assert_eq!(c.group(2), Some(0..0));
    c.reset(0);
    assert_eq!(c.group_count(), 0);
    assert_eq!(c.group(0), None);
}

#[test]
fn full_group_zero_is_the_match() {
    let t = snapshot("one two three");
    let mut c = SearchCursor::new(r"\w+", 0, &t).unwrap();
    while let Some(m) = c.next() {
        assert_eq!(c.group(0), Some(m));
    }
}

#[test]
fn full_reset_past_end() {
    let t = snapshot("aa");
    let mut c = SearchCursor::new("a", 0, &t).unwrap();
    c.reset(3);
    assert_eq!(c.next(), None);
    c.reset(1);
    assert_eq!(c.next(), Some(1..2));
}

#[test]
fn full_sees_new_text() {
    let mut c = SearchCursor::new("x+", 0, &snapshot("abc")).unwrap();
    assert_eq!(c.next(), None);
    c.set_text(&snapshot("a xx"), 0);
    assert_eq!(c.next(), Some(2..4));
    c.set_text(&snapshot("xyx"), 1);
    assert_eq!(c.next(), Some(2..3));
}

#[test]
fn accepted_captures_are_recorded() {
    let t = snapshot("abcdef");
    let mut c = SearchCursor::new("b(x)?", 0, &t).unwrap();
    assert_eq!(c.accept_captures(None), None);
    assert_eq!(c.group_count(), 0);
    assert_eq!(c.accept_captures(Some(vec![Some((1, 2)), None])), Some(1..2));
    assert_eq!(c.group(1), Some(0..0));
    assert_eq!(c.accept_captures(Some(vec![Some((6, 6))])), Some(6..6));
    assert_eq!(c.next(), None);
}

#[test]
fn lite_case_sensitive() {
    let t = snapshot("concatenate");
    let mut c = SearchCursor::new_lite("cat", 0, &t).unwrap();
    assert_eq!(c.next(), Some(3..6));
    assert_eq!(c.next(), None);
    let mut d = SearchCursor::new_lite("Cat", 0, &t).unwrap();
    assert_eq!(d.next(), None);
}

#[test]
fn lite_case_insensitive_ascii() {
    let t = snapshot("a Cat sat");
    let mut c = SearchCursor::new_lite("CAT", SearchCursor::CASE_INSENSITIVE, &t).unwrap();
    assert_eq!(c.next(), Some(2..5));
    assert_eq!(c.next(), None);
}

#[test]
fn lite_is_always_literal_and_has_no_groups() {
    let t = snapshot("a.b axb");
    let flags = SearchCursor::LITERAL | SearchCursor::MULTILINE;
    let mut c = SearchCursor::new_lite("a.b", flags, &t).unwrap();
    assert_eq!(all_matches(&mut c), vec![0..3]);
    assert_eq!(c.group_count(), 0);
    assert_eq!(c.group(0), None);
    assert!(SearchCursor::new_lite("(", 0, &t).is_ok());
}

#[test]
fn lite_non_overlapping_and_reset() {
    let t = snapshot("aaaa");
    let mut c = SearchCursor::new_lite("aa", 0, &t).unwrap();
    assert_eq!(all_matches(&mut c), vec![0..2, 2..4]);
    c.reset(1);
    assert_eq!(all_matches(&mut c), vec![1..3]);
    c.reset(5);
    assert_eq!(c.next(), None);
}

#[test]
fn lite_resume_inside_code_point() {
    let t = snapshot("éa");
    let mut c = SearchCursor::new_lite("a", 0, &t).unwrap();
    c.reset(1);
    assert_eq!(c.next(), Some(2..3));
}

#[test]
fn lite_sees_new_text() {
    let mut c = SearchCursor::new_lite("new", 0, &snapshot("old text")).unwrap();
    assert_eq!(c.next(), None);
    c.set_text(&snapshot("brand new"), 0);
    assert_eq!(c.next(), Some(6..9));
}

#[test]
fn full_alternation_groups_keep_their_index() {
    let t = snapshot("b");
    let mut c = SearchCursor::new("(a)|(b)", 0, &t).unwrap();
    assert_eq!(c.next(), Some(0..1));
    assert_eq!(c.group_count(), 2);
    assert_eq!(c.group(0), Some(0..1));
    assert_eq!(c.group(1), Some(0..0));
    assert_eq!(c.group(2), Some(0..1));
}

#[test]
fn both_backends_follow_an_edit() {
    for lite in [false, true] {
        let old_text = snapshot("cat");
        let mut c = if lite {
            SearchCursor::new_lite("dog", 0, &old_text).unwrap()
        } else {
            SearchCursor::new("dog", 0, &old_text).unwrap()
        };
        assert_eq!(c.next(), None);
        c.set_text(&snapshot("a dog"), 0);
        assert_eq!(c.next(), Some(2..5));
        assert_eq!(c.next(), None);
    }
}

#[test]
fn full_literal_escapes_every_metacharacter() {
    let p = r"\.+*?()|[]{}^$#&-~";
    let text = format!("x{p}y");
    let mut c = SearchCursor::new(p, SearchCursor::LITERAL, &snapshot(&text)).unwrap();
    assert_eq!(c.next(), Some(1..1 + p.len()));
}

#[test]
fn equal_cursors_agree_after_reset() {
    let t = snapshot("a1b22c333");
    let mut c1 = SearchCursor::new(r"\d+", 0, &t).unwrap();
    let mut c2 = SearchCursor::new(r"\d+", 0, &t).unwrap();
    c1.next();
    c1.reset(2);
    c2.reset(2);
    assert_eq!(all_matches(&mut c1), all_matches(&mut c2));
}
