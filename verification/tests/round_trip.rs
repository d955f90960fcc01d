//! Parse → render → parse yields the same syntax tree, over a corpus
//! of filters and paths.

use cream::{parse_filter, parse_value_path};

fn round_trip_filter(input: &str) {
    let first = parse_filter(input).unwrap();
    let printed = first.render();
    let second = parse_filter(printed.as_str()).unwrap();
    assert_eq!(first, second);
}

fn round_trip_value_path(input: &str) {
    let first = parse_value_path(input).unwrap();
    let printed = first.render();
    let second = parse_value_path(printed.as_str()).unwrap();
    assert_eq!(first, second);
}

#[test]
fn filter_corpus_round_trips() {
    let corpus = vec![
        "userName eq \"alice\"",
        "name.formatted eq \"John Smith\"",
        "name.formatted pr",
        "emails[type eq \"work\"]",
        "emails[type eq \"work\" and value co \"@example.com\"]",
        "userName sw \"J\" and title pr",
        "title pr or userType eq \"Intern\"",
        "a pr or b pr and c pr",
        "(a pr or b pr) and c pr",
        "not (emails co \"example.org\")",
        "not (emails co \"a\" or ims co \"b\")",
        "userType eq \"Employee\" and (emails co \"example.com\" or emails.value co \"example.org\")",
        "urn:ietf:params:scim:schemas:extension:enterprise:2.0:User:employeeNumber eq \"701984\"",
        "urn:ietf:params:scim:schemas:extension:enterprise:2.0:User:manager.displayName sw \"J\"",
        "meta.lastModified gt \"2011-05-13T04:42:34Z\"",
        "age gt 12.5",
        "age le 0",
        "count ne 1001",
        "active eq true and deleted eq false and manager eq null",
        "x eq \"quote \\\" backslash \\\\ end\"",
        "userType ne \"Employee\" and not (emails co \"example.com\" or emails.value co \"example.org\")",
        "userType eq \"Employee\" and emails[type eq \"work\" and value co \"@example.com\"]",
        "emails[type eq \"work\"] and ims[type eq \"xmpp\" and value co \"@foo.com\"]",
    ];
    for input in corpus {
        round_trip_filter(input);
    }
}

#[test]
fn value_path_corpus_round_trips() {
    let corpus = vec![
        "members",
        "name.familyName",
        "emails[type eq \"work\"]",
        "emails[type eq \"work\"].value",
        "addresses[type eq \"work\"].streetAddress",
        "urn:ietf:params:scim:schemas:extension:enterprise:2.0:User:manager",
    ];
    for input in corpus {
        round_trip_value_path(input);
    }
}
