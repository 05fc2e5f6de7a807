use sv::config::read_config;
use sv::error::ModelError;
use sv::nesting::{nests, NESTING_LIMIT};
use sv::registry::validate_lambda;
use sv::terraform::validate_terraform_files;
use sv::wiring::{extract_api_gw, extract_step_function};

fn nested(open: &str, close: &str, depth: usize) -> String {
  format!("x = {}1{}\n", open.repeat(depth), close.repeat(depth))
}

#[test]
fn brackets_count_while_they_are_open() {
  assert_eq!(nests(""), 0);
  assert_eq!(nests("a = 1\n"), 0);
  assert_eq!(nests("a = [[1], [2, [3]]]"), 3);
  assert_eq!(nests("a {\n  b = { c = (1) }\n}\nd {\n}\n"), 3);
  assert_eq!(nests("a = [1]\nb = [2]\nc = [3]\n"), 1);
  // A closing bracket without an open one closes nothing.
  assert_eq!(nests("]]][[["), 3);
}

#[test]
fn operators_count_until_the_bracket_around_them_closes() {
  assert_eq!(nests("a = !!!b"), 3);
  assert_eq!(nests("a = - - -1"), 3);
  assert_eq!(nests("a = b ? c : d ? e : f"), 2);
  assert_eq!(nests("a = [!b, !c, !d]"), 4);
  assert_eq!(nests("a = [[!b], [!c], [!d]]"), 3);
  assert_eq!(nests("a {\n  b = !c\n}\nd {\n  e = !f\n}\n"), 2);
  assert_eq!(nests("a = b + c * d\n"), 2);
  assert_eq!(nests("a = b == c && d || e\n"), 3);
  assert_eq!(nests("a = b != c\n"), 1);
  assert_eq!(nests("a = b <= c\n"), 1);
  assert_eq!(nests("a = b >= c\n"), 1);
  assert_eq!(nests("a = {for b, c in d : b => c}\n"), 1);
  assert_eq!(nests("a = b / c % d\n"), 2);
  assert_eq!(nests("a = b & c | d\n"), 0);
}

#[test]
fn a_hyphen_in_a_name_is_no_operator() {
  assert_eq!(nests("postcode-validation = a-1"), 0);
  assert_eq!(nests("a = b - c"), 1);
  assert_eq!(nests("a = 1-2"), 1);
  assert_eq!(nests("a = b--c"), 0);
  assert_eq!(nests("a = i-1-2"), 0);
  assert_eq!(nests("a = b[0]-c"), 1);
  assert_eq!(nests("a = 1e5-1e5-b"), 2);
}

#[test]
fn a_value_may_begin_at_once_behind_in_and_if() {
  assert_eq!(nests("a = [for b in -c : b]"), 2);
  assert_eq!(nests("a = [for b in-c : b]"), 2);
  assert_eq!(nests("a = [for b in--c : b]"), 3);
  assert_eq!(nests("a = [for b in1-1-1 : b]"), 3);
  assert_eq!(nests("a = [for b in c : b if-b]"), 2);
  assert_eq!(nests("a = [for b in c : 1if1-1-1]"), 3);
  assert_eq!(nests("a = [for b in inc-1 : b]"), 1);
  assert_eq!(nests("in-flight = 1\n"), 1);
}

#[test]
fn a_value_that_is_given_ends_what_stood_before_it() {
  assert_eq!(nests("a = !b\nc = !d\ne = !f\n"), 1);
  assert_eq!(nests("a {\n  b = !c\n  d = !e\n  f = !g\n}\n"), 2);
  assert_eq!(nests("a = { b = 1 + 2, c = 3 + 4, d = 5 + 6 }\n"), 2);
  assert_eq!(nests("a = f({ b = c == d ? 1 : 2\n e = g == h ? 3 : 4 })\n"), 4);
  // An operator before the bracket stays while the bracket is open.
  assert_eq!(nests("a = !{ b = !c\n d = !e\n f = !g }\n"), 5);
  assert_eq!(nests("a = [!b, c == d, !e]\n"), 4);
}

#[test]
fn a_string_counts_what_opens_in_it_until_it_ends() {
  assert_eq!(nests("a = \"]]] [[[ {{{ --- \""), 0);
  assert_eq!(nests("a = \"${b}\"\nc = \"${d}\"\n"), 1);
  assert_eq!(nests("a = \"${b[c]}-${d(e)}\""), 2);
  assert_eq!(nests("a = \"${b}${c}${d}${e + f}\""), 2);
  assert_eq!(nests("a = [\"]\", [\"]\", [\"]\"]]]"), 3);
  assert_eq!(nests("a = \"\\\"]\" [\"\\\\\"]"), 1);
  assert_eq!(nests("a = \"${b[\"]\"]}\" [c]"), 2);
}

#[test]
fn a_text_behind_a_word_ends_with_the_word() {
  assert_eq!(nests("a = <<EOT\n]\nEOT\nb = [1]\nc = [2]\n"), 1);
  assert_eq!(nests("a = <<-EOT\n  [[[ \" # (((\n  EOT\nb = [1]\n"), 1);
  assert_eq!(nests("a = [<<EOT\n]\nEOT\n]\nb = [[1]]\n"), 2);
  // The word ends the text only on a line of its own.
  assert_eq!(nests("a = <<EOT\n [ EOT\nEOTS\nEOT-\n x EOT\nb = [1 + (2)]\nEOT\n"), 1);
  assert_eq!(nests("a = <<EOT\n]\nEOT]\nb = [[1]]\n"), 2);
  assert_eq!(nests("a = <<EOT\n${b[c]} ${d(e + f)}\nEOT\ng = [1]\n"), 4);
  assert_eq!(nests("a = <<EOT\n${b}EOT\n[[[\nEOT\n"), 2);
  let policy = "resource \"p\" \"q\" {\n  policy = <<EOF\n{\n  \"Version\": \"2012-10-17\",\n  \"Statement\": [{ \"Resource\": \"${a.b.arn}/*\" }]\n}\nEOF\n}\n";
  assert_eq!(nests(policy), 3);
  assert!(read_config(policy).is_ok());
}

#[test]
fn a_comment_counts_for_nothing() {
  assert_eq!(nests("# [[[ \"\na = [1]\n"), 1);
  assert_eq!(nests("a = [ // ]]] [[[\n 1 ]\nb = [2]\n"), 1);
  assert_eq!(nests("a = 1 / 2 # [\n"), 1);
  assert_eq!(nests("/* ] [[[ \n */ a = [1] /* [ */\nb = [2] /*/ [ */\nc = [3]\n"), 1);
  assert_eq!(nests("a = 1 // 2 + 3\n"), 0);
}

#[test]
fn an_escape_opens_nothing() {
  let text = "a = \"$${b} %%{c} $$${d} %%%{e} $%%{f} %$${g} 100% {h} $ {i}\"\nj = [1]\n";
  assert_eq!(nests(text), 1);
  assert!(read_config(text).is_ok());
  let text = "a = <<EOT\n$${b} %%{c} \\ \" $$${d}\nEOT\nj = [1]\n";
  assert_eq!(nests(text), 1);
  assert!(read_config(text).is_ok());
  // A brace behind a single `$` opens, whatever stands before the `$`.
  assert_eq!(nests("a = \"%${b[c]}\"\n"), 2);
  assert_eq!(nests("a = \"$%{if b}${c}%{endif}\"\n"), 2);
}

#[test]
fn what_a_word_behind_a_brace_begins_ends_with_its_end() {
  let text = "a = \"%{if b}x%{else}y%{endif}\"\nc = \"%{for d in e}${d}%{endfor}\"\nf = [1]\n";
  assert_eq!(nests(text), 2);
  assert!(read_config(text).is_ok());
  let text = "a = \"%{ if b }%{~ for c in d ~}${c[0]}%{ endfor ~}%{endif}\"\n";
  assert_eq!(nests(text), 4);
  assert!(read_config(text).is_ok());
  let text = "a = <<EOT\n%{if b}\n  ${c}\n%{endif}\n%{if d}\n  ${e}\n%{endif}\nEOT\nf = [1]\n";
  assert_eq!(nests(text), 3);
  assert!(read_config(text).is_ok());
  // Between the two neither a double quote nor the word ends the string.
  let text = "a = \"%{if b}\"]\"%{endif}\"\nc = [1]\nd = [2]\n";
  assert_eq!(nests(text), 1);
  assert!(read_config(text).is_ok());
  let text = "a = <<EOT\n%{if b}\nEOT\n${c[d]}\n%{endif}\nEOT\ne = [1]\n";
  assert_eq!(nests(text), 4);
  assert!(read_config(text).is_ok());
  assert_eq!(nests("a = <<EOT\n%{if b}\nEOT\nc = [1]\nd = [2]\n"), 2);
}

#[test]
fn a_bracket_between_the_braces_of_a_string_closes_again() {
  let text = "a = \"${jsonencode({ b = [1, 2], c = { d = [3] } })}\"\ne = \"${f(g)}${h[i]}\"\n";
  assert_eq!(nests(text), 5);
  assert!(read_config(text).is_ok());
  let text = "a = \"${ {b = 1} }\"\nc = [1]\nd = [2]\n";
  assert_eq!(nests(text), 2);
  assert!(read_config(text).is_ok());
  let text = "a = \"${b < c ? d / e : f(\"\\\"]\\\\\", \"$${g}\", \"100%\")}\"\nh = [1]\n";
  assert_eq!(nests(text), 5);
  assert!(read_config(text).is_ok());
  let text = "a = \"${b /* ] } */ + c # }\n}\"\nd = [1]\n";
  assert_eq!(nests(text), 3);
  assert!(read_config(text).is_ok());
  let text = "a = \"${b // }\n}\"\nd = [1]\n";
  assert_eq!(nests(text), 2);
  assert!(read_config(text).is_ok());
}

#[test]
fn the_end_of_a_line_may_be_written_with_a_return() {
  let text = "a = <<EOT\r\n[\r\n  EOT\r\nb = [1]\r\nc = <<-E\r\n]\r\n E\r\n";
  assert_eq!(nests(text), 1);
  assert!(read_config(text).is_ok());
  assert_eq!(nests("a = <<EOT\r[\nEOT\nb = [1]\nc = [2]\n"), 5);
}

#[test]
fn where_the_text_is_not_followed_nothing_closes() {
  assert_eq!(nests("a = <<É\n]\nÉ\nb = [1]\nc = [2]\n"), 5);
  assert_eq!(nests("a = <<EOT\nEOT\nb = [1]\nc = [2]\n"), 5);
  assert_eq!(nests("a = <<EOT\n]\nEOTÉ\nb = [1]\nc = [2]\n"), 5);
}

#[test]
fn a_string_between_the_braces_of_a_string_is_read_as_any_other() {
  let text = "a = \"${f(\"${b}\")}\"\nc = [1]\nd = [2]\n";
  assert_eq!(nests(text), 3);
  assert!(read_config(text).is_ok());
  let text = "a = \"${f(\"]\", \"${b[\"${c}\"]}-%{if d}\"${e}\"%{endif}\")}\"\nc = [[1]]\n";
  assert_eq!(nests(text), 5);
  assert!(read_config(text).is_ok());
  let text = "a = <<EOT\n${f(\"EOT\n${b}\nEOT\n\")}\nEOT\nc = [1]\n";
  assert_eq!(nests(text), 4);
  assert!(read_config(text).is_ok());
  assert_eq!(nests("a = \"${f(\"%{if b}\")}\"\nc = [1]\nd = [2]\n"), 3);
  assert_eq!(nests("a = \"${<<EOT\nx\nEOT\n}\"\nb = [1]\n"), 2);
}

#[test]
fn a_text_at_the_limit_is_parsed() {
  let kinds = [
    ("[", "]", 1),
    ("(", ")", 1),
    ("f(", ")", 1),
    ("{ a = ", " }", 1),
    ("[for y in-", " : y]", 2),
    ("{for y in-", " : y => y}", 2),
    ("[for y in ", " : y]", 1),
    ("!", "", 1),
    ("- ", "", 1),
    ("1 + ", "", 1),
    ("[2, 3 * ", "]", 2),
  ];
  for (open, close, counted) in kinds {
    let text = nested(open, close, NESTING_LIMIT / counted);
    assert_eq!(nests(&text), NESTING_LIMIT, "{}", text);
    let body = read_config(&text).expect(&text);
    assert!(body.blocks.is_empty());
  }
  let blocks = format!(
    "{}x = 1\n{}",
    "a {\n".repeat(NESTING_LIMIT),
    "}\n".repeat(NESTING_LIMIT)
  );
  assert_eq!(nests(&blocks), NESTING_LIMIT);
  assert_eq!(read_config(&blocks).unwrap().blocks.len(), 1);
  let strings = [
    format!(
      "x = \"{}{}\"\n",
      "%{if a}".repeat(NESTING_LIMIT),
      "%{endif}".repeat(NESTING_LIMIT)
    ),
    format!(
      "x = <<E\n{}{}\nE\n",
      "%{for a in b}".repeat(NESTING_LIMIT - 1),
      "%{endfor}".repeat(NESTING_LIMIT - 1)
    ),
    format!(
      "x = \"${{{}1{}}}\"\n",
      "[".repeat(NESTING_LIMIT - 1),
      "]".repeat(NESTING_LIMIT - 1)
    ),
    format!(
      "x = \"${{{}1{}}}\"\n",
      "{ a = ".repeat(NESTING_LIMIT - 1),
      " }".repeat(NESTING_LIMIT - 1)
    ),
    format!("x = \"${{{}1}}\"\n", "1 + ".repeat(NESTING_LIMIT - 1)),
    format!(
      "x = {}1{}\n",
      "\"${".repeat(NESTING_LIMIT),
      "}\"".repeat(NESTING_LIMIT)
    ),
    format!(
      "x = {}1{}\n",
      "\"${f(".repeat(NESTING_LIMIT / 2),
      ")}\"".repeat(NESTING_LIMIT / 2)
    ),
  ];
  for text in strings {
    assert_eq!(nests(&text), NESTING_LIMIT, "{}", text);
    assert!(read_config(&text).is_ok(), "{}", text);
  }
  let choices = format!("x = {}1\n", "a ? 1 : ".repeat(NESTING_LIMIT));
  assert_eq!(nests(&choices), NESTING_LIMIT);
  assert!(read_config(&choices).is_ok());
}

#[test]
fn a_text_beyond_the_limit_is_never_parsed() {
  let refused = Err(ModelError::Syntax(
    "the text nests too deep to be parsed".to_string(),
  ));
  for depth in [NESTING_LIMIT + 1, 100_000] {
    for (open, close) in [("[", "]"), ("(", ")"), ("!", ""), ("{ a = ", " }"), ("1 + ", "")] {
      let text = nested(open, close, depth);
      assert_eq!(
        read_config(&text),
        Err("the text nests too deep to be parsed".to_string())
      );
      assert_eq!(validate_lambda(&text), refused);
      assert_eq!(extract_api_gw(&text, vec![]), refused);
      assert_eq!(extract_step_function(vec![], &text), refused);
      assert_eq!(
        validate_terraform_files(&["a = 1".to_string(), text.clone()]),
        Err(ModelError::Syntax(
          "the text nests too deep to be parsed".to_string()
        ))
      );
    }
  }
}
