use fcd::names::{date_style, format_seconds, natsort_key, tar_stem, tar_suffix, DateStyle};
use fcd::stat::filemode;

#[test]
fn filemode_of_regular_file() {
    assert_eq!(filemode(0o100644), "-rw-r--r--");
}

#[test]
fn filemode_of_directory() {
    assert_eq!(filemode(0o040755), "drwxr-xr-x");
}

#[test]
fn filemode_of_setuid_and_sticky() {
    assert_eq!(filemode(0o104755), "-rwsr-xr-x");
    assert_eq!(filemode(0o041777), "drwxrwxrwt");
    assert_eq!(filemode(0o102644), "-rw-r-Sr--");
}

#[test]
fn filemode_of_other_types() {
    assert_eq!(filemode(0o120777), "lrwxrwxrwx");
    assert_eq!(filemode(0o140755), "srwxr-xr-x");
    assert_eq!(filemode(0o060660), "brw-rw----");
    assert_eq!(filemode(0o020620), "crw--w----");
    assert_eq!(filemode(0o010644), "prw-r--r--");
}

#[test]
fn tar_stem_and_suffix_of_double_suffix() {
    assert_eq!(tar_stem("archive.tar.gz"), "archive");
    assert_eq!(tar_suffix("archive.tar.gz"), ".tar.gz");
    assert_eq!(tar_stem("a.TAR.gz"), "a");
    assert_eq!(tar_suffix("a.TAR.gz"), ".TAR.gz");
}

#[test]
fn tar_stem_and_suffix_of_plain_names() {
    assert_eq!(tar_stem("file.txt"), "file");
    assert_eq!(tar_suffix("file.txt"), ".txt");
    assert_eq!(tar_stem("x.tar"), "x");
    assert_eq!(tar_suffix("x.tar"), ".tar");
    assert_eq!(tar_stem("noext"), "noext");
    assert_eq!(tar_suffix("noext"), "");
}

#[test]
fn tar_stem_and_suffix_of_hidden_names() {
    assert_eq!(tar_stem(".bashrc"), ".bashrc");
    assert_eq!(tar_suffix(".bashrc"), "");
    assert_eq!(tar_stem(".config.tar.gz"), ".config");
    assert_eq!(tar_suffix(".config.tar.gz"), ".tar.gz");
    assert_eq!(tar_stem(".vimrc.bak"), ".vimrc");
    assert_eq!(tar_suffix(".vimrc.bak"), ".bak");
}

#[test]
fn stem_and_suffix_make_the_name() {
    for name in ["a.b.c", "archive.tar.xz", ".hidden", "plain", "..", "a..b"] {
        assert_eq!(format!("{}{}", tar_stem(name), tar_suffix(name)), name);
    }
}

#[test]
fn format_seconds_examples() {
    assert_eq!(format_seconds(0), "00:00:00");
    assert_eq!(format_seconds(59), "00:00:59");
    assert_eq!(format_seconds(3661), "01:01:01");
    assert_eq!(format_seconds(86399), "23:59:59");
    assert_eq!(format_seconds(90061), "1d01:01:01");
    assert_eq!(format_seconds(10 * 86400), "10d00:00:00");
}

#[test]
fn natsort_key_folds_case() {
    assert_eq!(natsort_key("ABC"), "abc");
    assert_eq!(natsort_key("Straße"), "strasse");
    assert_eq!(natsort_key("Ä"), "a\u{308}");
}

#[test]
fn date_style_examples() {
    assert_eq!(date_style((2024, 5, 1), (2024, 5, 1)), DateStyle::Time);
    assert_eq!(date_style((2024, 1, 9), (2024, 5, 1)), DateStyle::MonthDay);
    assert_eq!(date_style((2023, 5, 1), (2024, 5, 1)), DateStyle::YearMonth);
}
