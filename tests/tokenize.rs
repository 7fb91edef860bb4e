use shu::brace::expand_braces;
use shu::tokenize::split_args;

fn words(v: &[&str]) -> Vec<String> {
    v.iter().map(|s| s.to_string()).collect()
}

#[test]
fn quoted_space_stays_in_one_token() {
    assert_eq!(split_args("grep -p \"a b\" file.txt"), words(&["grep", "-p", "a b", "file.txt"]));
}

#[test]
fn brace_groups_expand_as_cross_product() {
    assert_eq!(split_args("ls {a,b}/{x,y}"), words(&["ls", "a/x", "a/y", "b/x", "b/y"]));
}

#[test]
fn single_part_brace_expands_to_itself() {
    assert_eq!(split_args("echo {single}"), words(&["echo", "single"]));
}

#[test]
fn unterminated_brace_is_literal() {
    assert_eq!(split_args("foo{bar"), words(&["foo{bar"]));
}

#[test]
fn operators_split_words() {
    assert_eq!(
        split_args("cat a|grep x>o.txt"),
        words(&["cat", "a", "|", "grep", "x", ">", "o.txt"])
    );
    assert_eq!(split_args("a >> b >= c"), words(&["a", ">>", "b", ">=", "c"]));
    assert_eq!(split_args("a&&b & c"), words(&["a", "&&", "b", "&", "c"]));
    assert_eq!(split_args("a<b<<c<>d"), words(&["a", "<", "b", "<<", "c", "<>", "d"]));
}

#[test]
fn comment_ends_the_line() {
    assert_eq!(split_args("ls -l # list it"), words(&["ls", "-l"]));
    assert_eq!(split_args("echo '#x' #y"), words(&["echo", "#x"]));
}

#[test]
fn blanks_and_tabs_separate_words() {
    assert_eq!(split_args("  a\tb   c  "), words(&["a", "b", "c"]));
    assert!(split_args("").is_empty());
    assert!(split_args("   ").is_empty());
}

#[test]
fn quotes_join_with_adjacent_text() {
    assert_eq!(split_args("x'a b'y \"it's\""), words(&["xa by", "it's"]));
    assert_eq!(split_args("'a|b>c'"), words(&["a|b>c"]));
}

#[test]
fn braces_protect_blanks_and_operators() {
    assert_eq!(split_args("x{a b}"), words(&["xa", "xb"]));
    assert_eq!(split_args("{a,|}"), words(&["a", "|"]));
}

#[test]
fn nested_and_empty_brace_parts() {
    assert_eq!(expand_braces("{a,{b,c}}d"), words(&["ad", "bd", "cd"]));
    assert_eq!(expand_braces("{a,,b}"), words(&["a", "b"]));
    assert_eq!(expand_braces("plain"), words(&["plain"]));
    assert_eq!(expand_braces("{}"), Vec::<String>::new());
    assert_eq!(expand_braces("a}b{"), words(&["a}b{"]));
}

#[test]
fn quoted_text_is_not_brace_expanded() {
    assert_eq!(split_args("grep -p \"{a,b}\" f"), words(&["grep", "-p", "{a,b}", "f"]));
    assert_eq!(split_args("{a,\"b c\"}"), words(&["a", "b c"]));
    assert_eq!(split_args("a{b,'}'}"), words(&["ab", "a}"]));
    assert_eq!(split_args("x\"{\"a,b}"), words(&["x{a,b}"]));
    assert_eq!(split_args("'{x,y}'{1,2}"), words(&["{x,y}1", "{x,y}2"]));
}
