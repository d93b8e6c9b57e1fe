use fcd::fnmatch::translate;
use fcd::template::substitute;

fn mapping_of(pairs: &[(&str, &str)]) -> Vec<(String, String)> {
    pairs.iter().map(|(k, v)| (k.to_string(), v.to_string())).collect()
}

#[test]
fn substitute_simple_identifier() {
    let m = mapping_of(&[("name", "World")]);
    assert_eq!(substitute("Hello %name!", &m, '%'), "Hello World!");
    assert_eq!(substitute("%name", &m, '%'), "World");
}

#[test]
fn substitute_braced_identifier() {
    let m = mapping_of(&[("f", "a.txt")]);
    assert_eq!(substitute("%{f}.bak", &m, '%'), "a.txt.bak");
    assert_eq!(substitute("cp %f %f.old", &m, '%'), "cp a.txt a.txt.old");
}

#[test]
fn substitute_doubled_delimiter() {
    let m = mapping_of(&[("f", "x")]);
    assert_eq!(substitute("100%% %f", &m, '%'), "100% x");
}

#[test]
fn substitute_unknown_identifier_is_kept() {
    let m = mapping_of(&[("f", "x")]);
    assert_eq!(substitute("%g and %{h}", &m, '%'), "%g and %{h}");
    assert_eq!(substitute("end %", &m, '%'), "end %");
}

#[test]
fn substitute_first_entry_wins() {
    let m = mapping_of(&[("a", "1"), ("a", "2")]);
    assert_eq!(substitute("%a", &m, '%'), "1");
}

#[test]
fn substitute_without_delimiter_is_identity() {
    let m = mapping_of(&[("a", "1")]);
    assert_eq!(substitute("plain text $a", &m, '%'), "plain text $a");
    assert_eq!(substitute("$a", &m, '$'), "1");
}

#[test]
fn translate_examples() {
    assert_eq!(translate("*.txt"), "(?s:.*\\.txt)\\z");
    assert_eq!(translate("a?c"), "(?s:a.c)\\z");
    assert_eq!(translate("[abc]"), "(?s:[abc])\\z");
    assert_eq!(translate("[!abc]"), "(?s:[^abc])\\z");
    assert_eq!(translate("[abc"), "(?s:\\[abc)\\z");
}
