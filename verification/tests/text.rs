use sv::diagnostics::{Diagnostic, Diagnostics, Issue, Severity};
use sv::text::{
  chars_of, either, equal, erase, find, head, includes, occurrences, occurs_at, position,
  same, slice_of, space, split_lines, string_of, strip, tail, trimmed,
};

fn chars(s: &str) -> Vec<char> {
  s.chars().collect()
}

fn text(v: &[char]) -> String {
  v.iter().collect()
}

#[test]
fn texts_become_characters_and_back() {
  assert_eq!(chars_of("a/é*"), vec!['a', '/', 'é', '*']);
  assert_eq!(chars_of(""), Vec::<char>::new());
  assert_eq!(string_of(&['a', 'é', 'b']), "aéb");
  assert_eq!(string_of(&[]), "");
  assert_eq!(slice_of(&chars("abcdef"), 2, 4), chars("cd"));
  assert_eq!(slice_of(&chars("abcdef"), 3, 3), chars(""));
}

#[test]
fn texts_are_compared_by_their_characters() {
  assert!(same(&chars("abc"), &chars("abc")));
  assert!(!same(&chars("abc"), &chars("abd")));
  assert!(!same(&chars("abc"), &chars("ab")));
  assert!(equal("", ""));
  assert!(equal("shared", "shared"));
  assert!(!equal("shared", "Shared"));
  assert!(either(&chars("hAnDlEr"), &chars("handler"), &chars("HANDLER")));
  assert!(!either(&chars("handle"), &chars("handler"), &chars("HANDLER")));
  assert!(!either(&chars("handlor"), &chars("handler"), &chars("HANDLER")));
}

#[test]
fn a_pattern_is_found_where_it_first_stands() {
  let s = chars("/api/GET/GET");
  let get = chars("GET");
  assert!(occurs_at(&s, 5, &get));
  assert!(!occurs_at(&s, 4, &get));
  assert!(!occurs_at(&s, 10, &get));
  assert!(!occurs_at(&s, 100, &get));
  assert!(occurs_at(&s, 12, &[]));
  assert_eq!(find(&s, &get, 0), Some(5));
  assert_eq!(find(&s, &get, 6), Some(9));
  assert_eq!(find(&s, &get, 10), None);
  assert_eq!(find(&s, &chars("PUT"), 0), None);
  assert_eq!(find(&chars("ab"), &chars("abc"), 0), None);
  assert!(includes(&s, &get));
  assert!(includes(&s, &[]));
  assert!(!includes(&s, &chars("POST")));
  assert_eq!(position(&s, '/', 0), Some(0));
  assert_eq!(position(&s, '/', 1), Some(4));
  assert_eq!(position(&s, '*', 0), None);
  assert_eq!(position(&s, '/', 50), None);
}

#[test]
fn characters_are_counted_and_taken_out() {
  assert_eq!(occurrences(&chars("/*/*/x*"), '*'), 3);
  assert_eq!(occurrences(&chars(""), '*'), 0);
  assert_eq!(text(&strip(&chars("\"a\"b\"\""), '"')), "ab");
  assert_eq!(text(&erase(&chars("/GET/a/GET/GET"), &chars("/GET"))), "/a");
  assert_eq!(text(&erase(&chars("aaa"), &chars("aa"))), "a");
  assert_eq!(text(&erase(&chars("abc"), &[])), "abc");
  assert_eq!(text(&erase(&chars("ab"), &chars("abc"))), "ab");
}

#[test]
fn white_space_is_trimmed_at_both_ends() {
  assert!(space(' ') && space('\t') && space('\n') && space('\r') && space('\u{a0}'));
  assert!(space('\u{2003}') && space('\u{3000}') && space('\u{85}'));
  assert!(!space('a') && !space('\u{200b}') && !space('_'));
  assert_eq!(text(&trimmed(&chars(" \t a b \r\n"))), "a b");
  assert_eq!(text(&trimmed(&chars("   "))), "");
  assert_eq!(text(&trimmed(&chars(""))), "");
  assert_eq!(text(&trimmed(&chars("ab"))), "ab");
  for sample in [" \u{a0}x y\u{2009}\n", "\u{feff}x ", "x"] {
    assert_eq!(text(&trimmed(&chars(sample))), sample.trim());
  }
}

#[test]
fn a_text_is_cut_at_its_first_separator() {
  assert_eq!(text(&head(&chars("a : b : c"), ':')), "a ");
  assert_eq!(text(&head(&chars("abc"), ':')), "abc");
  assert_eq!(text(&tail(&chars("a : b : c"), ':')), " b : c");
  assert_eq!(text(&tail(&chars("abc"), ':')), "");
  assert_eq!(text(&tail(&chars("abc:"), ':')), "");
}

#[test]
fn lines_end_at_line_feeds() {
  let lines = |s: &str| split_lines(&chars(s)).iter().map(|l| text(l)).collect::<Vec<_>>();
  assert_eq!(lines("a\nb\r\n\nc"), vec!["a", "b", "", "c"]);
  assert_eq!(lines("a\n"), vec!["a"]);
  assert_eq!(lines("\n"), vec![""]);
  assert_eq!(lines(""), Vec::<String>::new());
  assert_eq!(lines("a\r"), vec!["a\r"]);
  for sample in ["a\nb\r\n\nc", "x\r\n", "\n\n", "a\rb\n\r\n"] {
    assert_eq!(lines(sample), sample.lines().collect::<Vec<_>>());
  }
}

#[test]
fn diagnostics_keep_their_order() {
  let mut found = Diagnostics::new();
  assert!(found.is_empty() && found.is_valid());
  found.warning(Issue::UnusedLambda, "w".to_string());
  found.info(Issue::BackendNotChecked, "i".to_string());
  assert!(found.is_valid());
  let mut more = Diagnostics::new();
  more.error(Issue::DuplicateKey, "e".to_string());
  more.push(Diagnostic {
    severity: Severity::Warning,
    issue: Issue::DuplicateKey,
    message: "p".to_string(),
  });
  found.append(more);
  assert!(!found.is_valid());
  assert_eq!(found.len(), 4);
  assert_eq!(
    found
      .entries()
      .iter()
      .map(|d| (d.severity, d.message.as_str()))
      .collect::<Vec<_>>(),
    vec![
      (Severity::Warning, "w"),
      (Severity::Info, "i"),
      (Severity::Error, "e"),
      (Severity::Warning, "p")
    ]
  );
  assert_eq!(found.messages(), vec!["w", "i", "e", "p"]);
  assert_eq!(found.get(2).issue, Issue::DuplicateKey);
  assert_eq!(found.count(Issue::DuplicateKey), 2);
  assert_eq!(found.count(Issue::UnusedLambda), 1);
  assert_eq!(found.count(Issue::DuplicateTag), 0);
}
