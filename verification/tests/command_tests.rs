use scoopie::install::{InstallAction, InstallCommand};
use scoopie::pathutil::strip_verbatim_prefix;
use scoopie::query::{QueryCommand, QueryKind};

#[test]
fn two_word_query_becomes_fulltext_and() {
    let c = QueryCommand { query: "foo bar".to_string() };
    let (kind, term) = c.translate();
    assert_eq!(kind, QueryKind::FullText);
    assert_eq!(term, "foo AND bar*");
}

#[test]
fn one_word_query_becomes_keyword_prefix() {
    let c = QueryCommand { query: "foo".to_string() };
    let (kind, term) = c.translate();
    assert_eq!(kind, QueryKind::Keyword);
    assert_eq!(term, "foo*");
}

#[test]
fn query_term_is_trimmed_first() {
    let c = QueryCommand { query: "  foo  ".to_string() };
    let (kind, term) = c.translate();
    assert_eq!(kind, QueryKind::Keyword);
    assert_eq!(term, "foo*");
}

#[test]
fn three_words_are_all_conjoined() {
    let c = QueryCommand { query: "a  b c".to_string() };
    let (kind, term) = c.translate();
    assert_eq!(kind, QueryKind::FullText);
    assert_eq!(term, "a AND b AND c*");
}

#[test]
fn install_dispatch_prefers_sync() {
    let c = InstallCommand { app: Some("foo".to_string()), sync: true, update_all: false };
    assert_eq!(c.action(), InstallAction::SyncRepos);
}

#[test]
fn install_dispatch_downloads_named_app() {
    let c = InstallCommand { app: Some("foo".to_string()), sync: false, update_all: false };
    assert_eq!(c.action(), InstallAction::Download("foo".to_string()));
}

#[test]
fn install_dispatch_rejects_empty_invocation() {
    let c = InstallCommand { app: None, sync: false, update_all: true };
    assert_eq!(c.action(), InstallAction::Unsupported);
}

#[test]
fn verbatim_prefix_is_stripped() {
    assert_eq!(strip_verbatim_prefix("\\\\?\\C:\\cache"), "C:\\cache");
}

#[test]
fn plain_paths_are_untouched() {
    assert_eq!(strip_verbatim_prefix("/home/user/cache"), "/home/user/cache");
    assert_eq!(strip_verbatim_prefix("C:\\x"), "C:\\x");
}
