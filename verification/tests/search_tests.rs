use grep_tool::insensitive_search;
use grep_tool::search;
use grep_tool::search_lines;
use grep_tool::split_lines;

// Try to get the correct text after finding
#[test]
fn find_test() {
    let query: &str = "Then";
    let text: &str = "\
I'm nobody! Who are you?
Are you nobody, too?
Then there's a pair of us - don't tell!
They'd banish us, you know.

How dreary to be somebody!
How public, like a frog
To tell your name the livelong day
To an admiring bog!";

    let result = vec!["Then there's a pair of us - don't tell!"];

    assert_eq!(result, search(query, text));
}

#[test]
fn case_insensitive() {
    let query: &str = "RuSt";
    let text: &str = "Rust is awesome\nTesting testing\nTesting rust\nEnd of file";
    let result = vec!["Rust is awesome", "Testing rust"];

    assert_eq!(result, insensitive_search(query, text));
}

#[test]
fn search_twice_gives_identical_results() {
    let query: &str = "you";
    let text: &str = "I'm nobody! Who are you?\nAre you nobody, too?\nHow public, like a frog";
    let first = search(query, text);
    let second = search(query, text);
    assert_eq!(first, second);
    let first_fold = insensitive_search(query, text);
    let second_fold = insensitive_search(query, text);
    assert_eq!(first_fold, second_fold);
}

#[test]
fn empty_query_returns_every_line() {
    let text: &str = "alpha\nbeta\ngamma";
    let all = vec!["alpha", "beta", "gamma"];
    assert_eq!(all, search("", text));
    assert_eq!(all, insensitive_search("", text));
}

#[test]
fn absent_query_returns_nothing() {
    let text: &str = "alpha\nbeta\ngamma";
    assert_eq!(search("delta", text), Vec::<&str>::new());
    assert_eq!(insensitive_search("delta", text), Vec::<&str>::new());
}

#[test]
fn empty_text_returns_nothing() {
    assert_eq!(search("anything", ""), Vec::<&str>::new());
    assert_eq!(insensitive_search("anything", ""), Vec::<&str>::new());
    assert_eq!(search("", ""), Vec::<&str>::new());
}

#[test]
fn query_longer_than_any_line_returns_nothing() {
    let text: &str = "ab\ncd";
    assert_eq!(search("abcde", text), Vec::<&str>::new());
    assert_eq!(insensitive_search("abcde", text), Vec::<&str>::new());
}

#[test]
fn case_sensitivity_distinguishes_the_algorithms() {
    let text: &str = "Rust is awesome\nTesting testing\nTesting rust\nEnd of file";
    assert_ne!(search("RuSt", text), search("rust", text));
    assert_eq!(
        insensitive_search("RuSt", text),
        insensitive_search("rust", text)
    );
    assert_eq!(search("RuSt", text), Vec::<&str>::new());
    assert_eq!(search("rust", text), vec!["Testing rust"]);
}

#[test]
fn duplicate_matching_lines_appear_once_per_occurrence() {
    let text: &str = "echo\nother\necho\necho";
    assert_eq!(search("echo", text), vec!["echo", "echo", "echo"]);
}

#[test]
fn search_lines_selects_the_algorithm() {
    let text: &str = "Rust is awesome\nTesting testing\nTesting rust\nEnd of file";
    assert_eq!(search_lines("RuSt", text, false), search("RuSt", text));
    assert_eq!(search_lines("RuSt", text, true), insensitive_search("RuSt", text));
}

#[test]
fn split_lines_handles_line_endings() {
    assert_eq!(split_lines(""), Vec::<&str>::new());
    assert_eq!(split_lines("one line"), vec!["one line"]);
    assert_eq!(split_lines("a\nb"), vec!["a", "b"]);
    assert_eq!(split_lines("a\nb\n"), vec!["a", "b"]);
    assert_eq!(split_lines("a\r\nb"), vec!["a", "b"]);
    assert_eq!(split_lines("\n"), vec![""]);
    assert_eq!(split_lines("a\rb\nbaz\r"), vec!["a\rb", "baz\r"]);
}

#[test]
fn matches_across_folded_characters() {
    let text: &str = "MiXeD CaSe LiNe\nplain line";
    assert_eq!(insensitive_search("mixed case", text), vec!["MiXeD CaSe LiNe"]);
    assert_eq!(search("mixed case", text), Vec::<&str>::new());
}
