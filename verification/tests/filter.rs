use kubetui::filter::{attribute, FilterAttribute, SpecifiedResource};
use nom::branch::alt;
use nom::bytes::complete::{escaped, is_not, tag};
use nom::character::complete::{alphanumeric1, anychar, char, multispace0, multispace1};
use nom::combinator::{all_consuming, recognize};
use nom::error::Error;
use nom::multi::{many1_count, separated_list0};
use nom::sequence::{delimited, separated_pair};
use nom::IResult;

#[test]
fn parse_attributes() {
    let query = [
        "     ",
        "pod:hoge",
        "!pod:hoge",
        "container:hoge",
        "!container:hoge",
        "log:hoge",
        "!log:hoge",
        "labels:foo=bar",
        "fields:foo=bar",
        "daemonset/app",
        "deployment/app",
        "job/app",
        "pod/app",
        "replicaset/app",
        "service/app",
        "statefulset/app",
        "     ",
    ]
    .join("  ");

    let (remaining, actual) = kubetui::filter::parse_attributes(&query).unwrap();

    let expected = vec![
        FilterAttribute::Pod("hoge"),
        FilterAttribute::ExcludePod("hoge"),
        FilterAttribute::Container("hoge"),
        FilterAttribute::ExcludeContainer("hoge"),
        FilterAttribute::IncludeLog("hoge"),
        FilterAttribute::ExcludeLog("hoge"),
        FilterAttribute::LabelSelector("foo=bar"),
        FilterAttribute::FieldSelector("foo=bar"),
        FilterAttribute::Resource(SpecifiedResource::DaemonSet("app")),
        FilterAttribute::Resource(SpecifiedResource::Deployment("app")),
        FilterAttribute::Resource(SpecifiedResource::Job("app")),
        FilterAttribute::Resource(SpecifiedResource::Pod("app")),
        FilterAttribute::Resource(SpecifiedResource::ReplicaSet("app")),
        FilterAttribute::Resource(SpecifiedResource::Service("app")),
        FilterAttribute::Resource(SpecifiedResource::StatefulSet("app")),
    ];

    assert_eq!(actual, expected);
    assert_eq!(remaining, "");
}

#[test]
fn parse_attributes_with_quote() {
    let query = [
        "     ",
        "pod:hoge",
        r"log:'\'foo\' bar'",
        r#"log:"\"foo\" bar""#,
        "     ",
    ]
    .join("  ");

    let (remaining, actual) = kubetui::filter::parse_attributes(&query).unwrap();

    let expected = vec![
        FilterAttribute::Pod("hoge"),
        FilterAttribute::IncludeLog(r"\'foo\' bar"),
        FilterAttribute::IncludeLog(r#"\"foo\" bar"#),
    ];

    assert_eq!(actual, expected);
    assert_eq!(remaining, "");
}

#[test]
fn parse_error() {
    let query = "hoge:hoge";

    let actual = kubetui::filter::parse_attributes(query);

    assert!(actual.is_err());
}

#[test]
fn every_keyword() {
    let cases: Vec<(&str, FilterAttribute)> = vec![
        ("pod:hoge", FilterAttribute::Pod("hoge")),
        ("po:.*", FilterAttribute::Pod(".*")),
        ("p:^app$", FilterAttribute::Pod("^app$")),
        ("p:'^app$'", FilterAttribute::Pod("^app$")),
        ("p:\"^app$\"", FilterAttribute::Pod("^app$")),
        ("p:\"a b\"", FilterAttribute::Pod("a b")),
        ("p:'a b'", FilterAttribute::Pod("a b")),
        ("!pod:hoge", FilterAttribute::ExcludePod("hoge")),
        ("!po:.*", FilterAttribute::ExcludePod(".*")),
        ("!p:^app$", FilterAttribute::ExcludePod("^app$")),
        ("container:hoge", FilterAttribute::Container("hoge")),
        ("co:.*", FilterAttribute::Container(".*")),
        ("c:^app$", FilterAttribute::Container("^app$")),
        ("!container:hoge", FilterAttribute::ExcludeContainer("hoge")),
        ("!co:.*", FilterAttribute::ExcludeContainer(".*")),
        ("!c:^app$", FilterAttribute::ExcludeContainer("^app$")),
        ("log:hoge", FilterAttribute::IncludeLog("hoge")),
        ("lo:hoge", FilterAttribute::IncludeLog("hoge")),
        ("!log:hoge", FilterAttribute::ExcludeLog("hoge")),
        ("!lo:hoge", FilterAttribute::ExcludeLog("hoge")),
        ("labels:foo=bar,baz=qux", FilterAttribute::LabelSelector("foo=bar,baz=qux")),
        ("label:foo=bar,baz=qux", FilterAttribute::LabelSelector("foo=bar,baz=qux")),
        ("l:foo=bar,baz=qux", FilterAttribute::LabelSelector("foo=bar,baz=qux")),
        ("fields:foo=bar,baz=qux", FilterAttribute::FieldSelector("foo=bar,baz=qux")),
        ("field:foo=bar,baz=qux", FilterAttribute::FieldSelector("foo=bar,baz=qux")),
        ("f:foo=bar,baz=qux", FilterAttribute::FieldSelector("foo=bar,baz=qux")),
        ("daemonset/app", FilterAttribute::Resource(SpecifiedResource::DaemonSet("app"))),
        ("ds/app", FilterAttribute::Resource(SpecifiedResource::DaemonSet("app"))),
        ("deployment/app", FilterAttribute::Resource(SpecifiedResource::Deployment("app"))),
        ("deploy/app", FilterAttribute::Resource(SpecifiedResource::Deployment("app"))),
        ("job/app", FilterAttribute::Resource(SpecifiedResource::Job("app"))),
        ("pod/app", FilterAttribute::Resource(SpecifiedResource::Pod("app"))),
        ("po/app", FilterAttribute::Resource(SpecifiedResource::Pod("app"))),
        ("replicaset/app", FilterAttribute::Resource(SpecifiedResource::ReplicaSet("app"))),
        ("rs/app", FilterAttribute::Resource(SpecifiedResource::ReplicaSet("app"))),
        ("service/app", FilterAttribute::Resource(SpecifiedResource::Service("app"))),
        ("svc/app", FilterAttribute::Resource(SpecifiedResource::Service("app"))),
        ("statefulset/app", FilterAttribute::Resource(SpecifiedResource::StatefulSet("app"))),
        ("sts/app", FilterAttribute::Resource(SpecifiedResource::StatefulSet("app"))),
    ];
    for (query, expected) in cases {
        assert_eq!(attribute(query), Some(("", expected)), "{:?}", query);
        assert_eq!(kubetui::filter::parse_attributes(query), Ok(("", vec![expected])), "{:?}", query);
    }
}

#[test]
fn error_says_where() {
    assert_eq!(kubetui::filter::parse_attributes("hoge:hoge").unwrap_err().position, 0);
    assert_eq!(kubetui::filter::parse_attributes("  pod:a  x").unwrap_err().position, 9);
    assert_eq!(kubetui::filter::parse_attributes("pod/a.b-c_d").unwrap_err().position, 9);
    assert_eq!(kubetui::filter::parse_attributes("").unwrap(), ("", vec![]));
    assert_eq!(kubetui::filter::parse_attributes(" \t\r\n").unwrap(), ("", vec![]));
}

fn regex_literal(s: &str) -> IResult<&str, &str, Error<&str>> {
    alt((
        alt((
            delimited(
                tag("\""),
                escaped(is_not(r#"\""#), '\\', anychar),
                tag("\""),
            ),
            delimited(tag("'"), escaped(is_not(r"\'"), '\\', anychar), tag("'")),
        )),
        is_not(" \t\r\n"),
    ))(s)
}

fn selector_literal(s: &str) -> IResult<&str, &str, Error<&str>> {
    is_not(" \t\r\n")(s)
}

fn resource_name_literal(s: &str) -> IResult<&str, &str, Error<&str>> {
    recognize(many1_count(alt((alphanumeric1, tag("-"), tag(".")))))(s)
}

fn with_nom(s: &str) -> IResult<&str, FilterAttribute, Error<&str>> {
    let (r, (k, v)) = alt((
        separated_pair(
            alt((
                alt((tag("pod"), tag("po"))),
                alt((tag("daemonset"), tag("ds"))),
                alt((tag("deployment"), tag("deploy"))),
                tag("job"),
                alt((tag("replicaset"), tag("rs"))),
                alt((tag("service"), tag("svc"))),
                alt((tag("statefulset"), tag("sts"))),
            )),
            char('/'),
            resource_name_literal,
        ),
        separated_pair(
            alt((
                alt((tag("fields"), tag("field"), tag("f"))),
                alt((tag("labels"), tag("label"), tag("l"))),
            )),
            char(':'),
            selector_literal,
        ),
        separated_pair(
            alt((
                alt((tag("pod"), tag("po"), tag("p"))),
                alt((tag("!pod"), tag("!po"), tag("!p"))),
                alt((tag("container"), tag("co"), tag("c"))),
                alt((tag("!container"), tag("!co"), tag("!c"))),
                alt((tag("log"), tag("lo"))),
                alt((tag("!log"), tag("!lo"))),
            )),
            char(':'),
            regex_literal,
        ),
    ))(s)?;
    let slash = s[k.len()..].starts_with('/');
    let attribute = match (k, slash) {
        ("pod" | "po", true) => FilterAttribute::Resource(SpecifiedResource::Pod(v)),
        ("daemonset" | "ds", _) => FilterAttribute::Resource(SpecifiedResource::DaemonSet(v)),
        ("deployment" | "deploy", _) => {
            FilterAttribute::Resource(SpecifiedResource::Deployment(v))
        }
        ("job", _) => FilterAttribute::Resource(SpecifiedResource::Job(v)),
        ("replicaset" | "rs", _) => FilterAttribute::Resource(SpecifiedResource::ReplicaSet(v)),
        ("service" | "svc", _) => FilterAttribute::Resource(SpecifiedResource::Service(v)),
        ("statefulset" | "sts", _) => {
            FilterAttribute::Resource(SpecifiedResource::StatefulSet(v))
        }
        ("fields" | "field" | "f", _) => FilterAttribute::FieldSelector(v),
        ("labels" | "label" | "l", _) => FilterAttribute::LabelSelector(v),
        ("pod" | "po" | "p", _) => FilterAttribute::Pod(v),
        ("!pod" | "!po" | "!p", _) => FilterAttribute::ExcludePod(v),
        ("container" | "co" | "c", _) => FilterAttribute::Container(v),
        ("!container" | "!co" | "!c", _) => FilterAttribute::ExcludeContainer(v),
        ("log" | "lo", _) => FilterAttribute::IncludeLog(v),
        _ => FilterAttribute::ExcludeLog(v),
    };
    Ok((r, attribute))
}

fn query_with_nom(s: &str) -> Option<Vec<FilterAttribute>> {
    all_consuming(delimited(
        multispace0,
        separated_list0(multispace1, with_nom),
        multispace0,
    ))(s)
    .ok()
    .map(|(_, list)| list)
}

#[test]
fn the_same_queries_as_the_combinators_read() {
    let pieces = [
        "pod", "po", "p", "!p", "co", "c", "log", "lo", "!lo", "l", "f", "labels", "ds", "job",
        "svc", "sts", "rs", "deploy", ":", "/", " ", "  ", "\t", "\n", "\"", "'", "\\", "a",
        "a-b.c", "_", "x y", "あ", "",
    ];
    let mut checked = 0;
    for a in pieces {
        for b in pieces {
            for c in pieces {
                for d in pieces {
                    let query = format!("{}{}{}{}", a, b, c, d);
                    let expected = query_with_nom(&query);
                    let actual = kubetui::filter::parse_attributes(&query).ok().map(|(_, list)| list);
                    assert_eq!(actual, expected, "{:?}", query);
                    checked += 1;
                }
            }
        }
    }
    assert!(checked > 1_000_000);
    for query in [
        r#"log:"a\"b" pod:'x\'y' c:"unclosed"#,
        r#"log:"" pod:''"#,
        r#"log:"\" pod:x"#,
        r#"log:"a\\" pod:x"#,
        r#"p:"a"b"#,
        r#"p:"a" b"#,
        r#"p:'a"b' lo:"c'd""#,
        "pod/app-1.example pod:app",
        "pod/ pod:",
        "pod/app:x",
        "poX:a",
        "!pod/app",
        "fields:a=b labels:c=d f: l:",
    ] {
        let expected = query_with_nom(query);
        let actual = kubetui::filter::parse_attributes(query).ok().map(|(_, list)| list);
        assert_eq!(actual, expected, "{:?}", query);
    }
}
