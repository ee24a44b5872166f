//! The query that says which logs to show.
//!
//! A query is a list of attributes with white space between them, and
//! maybe around them. An attribute is a keyword, a separator and a value:
//!
//! - `pod`, `daemonset`, `deployment`, `job`, `replicaset`, `service` or
//!   `statefulset` (or a short form), `/` and the name of a resource;
//! - `fields` or `labels` (or a short form), `:` and a selector;
//! - `pod`, `container` or `log` (or a short form), with `!` in front to
//!   exclude, `:` and a regular expression, which may stand in quotes.
//!
//! Of the keywords of one attribute, the longest that fits is taken; of
//! the attributes, the first that fits in the order above.

use crate::util::to_chars;
use vstd::prelude::*;

verus! {

/// What an attribute is about.
#[derive(Clone, Copy, Debug, PartialEq, Eq, Structural)]
pub enum AttributeKind {
    SpecifiedPod,
    SpecifiedDaemonSet,
    SpecifiedDeployment,
    SpecifiedJob,
    SpecifiedReplicaSet,
    SpecifiedService,
    SpecifiedStatefulSet,
    FieldSelector,
    LabelSelector,
    Pod,
    ExcludePod,
    Container,
    ExcludeContainer,
    IncludeLog,
    ExcludeLog,
}

/// A resource that is named in a query.
#[derive(Clone, Copy, Debug, PartialEq)]
pub enum SpecifiedResource<'a> {
    DaemonSet(&'a str),
    Deployment(&'a str),
    Job(&'a str),
    Pod(&'a str),
    ReplicaSet(&'a str),
    Service(&'a str),
    StatefulSet(&'a str),
}

/// An attribute of a query.
#[derive(Clone, Copy, Debug, PartialEq)]
pub enum FilterAttribute<'a> {
    Resource(SpecifiedResource<'a>),
    Pod(&'a str),
    ExcludePod(&'a str),
    Container(&'a str),
    ExcludeContainer(&'a str),
    IncludeLog(&'a str),
    ExcludeLog(&'a str),
    LabelSelector(&'a str),
    FieldSelector(&'a str),
}

/// The mathematical value of a `FilterAttribute`.
pub ghost struct Attribute {
    pub kind: AttributeKind,
    pub value: Seq<char>,
}

impl<'a> View for FilterAttribute<'a> {
    type V = Attribute;

    open spec fn view(&self) -> Attribute {
        match *self {
            FilterAttribute::Resource(SpecifiedResource::DaemonSet(v)) => Attribute {
                kind: AttributeKind::SpecifiedDaemonSet,
                value: v@,
            },
            FilterAttribute::Resource(SpecifiedResource::Deployment(v)) => Attribute {
                kind: AttributeKind::SpecifiedDeployment,
                value: v@,
            },
            FilterAttribute::Resource(SpecifiedResource::Job(v)) => Attribute {
                kind: AttributeKind::SpecifiedJob,
                value: v@,
            },
            FilterAttribute::Resource(SpecifiedResource::Pod(v)) => Attribute {
                kind: AttributeKind::SpecifiedPod,
                value: v@,
            },
            FilterAttribute::Resource(SpecifiedResource::ReplicaSet(v)) => Attribute {
                kind: AttributeKind::SpecifiedReplicaSet,
                value: v@,
            },
            FilterAttribute::Resource(SpecifiedResource::Service(v)) => Attribute {
                kind: AttributeKind::SpecifiedService,
                value: v@,
            },
            FilterAttribute::Resource(SpecifiedResource::StatefulSet(v)) => Attribute {
                kind: AttributeKind::SpecifiedStatefulSet,
                value: v@,
            },
            FilterAttribute::Pod(v) => Attribute { kind: AttributeKind::Pod, value: v@ },
            FilterAttribute::ExcludePod(v) => Attribute {
                kind: AttributeKind::ExcludePod,
                value: v@,
            },
            FilterAttribute::Container(v) => Attribute {
                kind: AttributeKind::Container,
                value: v@,
            },
            FilterAttribute::ExcludeContainer(v) => Attribute {
                kind: AttributeKind::ExcludeContainer,
                value: v@,
            },
            FilterAttribute::IncludeLog(v) => Attribute {
                kind: AttributeKind::IncludeLog,
                value: v@,
            },
            FilterAttribute::ExcludeLog(v) => Attribute {
                kind: AttributeKind::ExcludeLog,
                value: v@,
            },
            FilterAttribute::LabelSelector(v) => Attribute {
                kind: AttributeKind::LabelSelector,
                value: v@,
            },
            FilterAttribute::FieldSelector(v) => Attribute {
                kind: AttributeKind::FieldSelector,
                value: v@,
            },
        }
    }
}

/// What a value is made of.
#[derive(Clone, Copy, Debug, PartialEq, Eq, Structural)]
pub enum ValueClass {
    /// Letters and digits of ASCII, `-` and `.`.
    Name,
    /// Anything but white space.
    Word,
    /// A word, or anything in quotes.
    Regex,
}

/// The keywords of an attribute, the longest first.
pub open spec fn tags_of(kind: AttributeKind) -> Seq<Seq<char>> {
    match kind {
        AttributeKind::SpecifiedPod => seq!["pod"@, "po"@],
        AttributeKind::SpecifiedDaemonSet => seq!["daemonset"@, "ds"@],
        AttributeKind::SpecifiedDeployment => seq!["deployment"@, "deploy"@],
        AttributeKind::SpecifiedJob => seq!["job"@],
        AttributeKind::SpecifiedReplicaSet => seq!["replicaset"@, "rs"@],
        AttributeKind::SpecifiedService => seq!["service"@, "svc"@],
        AttributeKind::SpecifiedStatefulSet => seq!["statefulset"@, "sts"@],
        AttributeKind::FieldSelector => seq!["fields"@, "field"@, "f"@],
        AttributeKind::LabelSelector => seq!["labels"@, "label"@, "l"@],
        AttributeKind::Pod => seq!["pod"@, "po"@, "p"@],
        AttributeKind::ExcludePod => seq!["!pod"@, "!po"@, "!p"@],
        AttributeKind::Container => seq!["container"@, "co"@, "c"@],
        AttributeKind::ExcludeContainer => seq!["!container"@, "!co"@, "!c"@],
        AttributeKind::IncludeLog => seq!["log"@, "lo"@],
        AttributeKind::ExcludeLog => seq!["!log"@, "!lo"@],
    }
}

/// Whether the attribute names a resource.
pub open spec fn is_specified(kind: AttributeKind) -> bool {
    match kind {
        AttributeKind::SpecifiedPod => true,
        AttributeKind::SpecifiedDaemonSet => true,
        AttributeKind::SpecifiedDeployment => true,
        AttributeKind::SpecifiedJob => true,
        AttributeKind::SpecifiedReplicaSet => true,
        AttributeKind::SpecifiedService => true,
        AttributeKind::SpecifiedStatefulSet => true,
        _ => false,
    }
}

/// What stands between the keyword and the value.
pub open spec fn separator_of(kind: AttributeKind) -> char {
    if is_specified(kind) {
        '/'
    } else {
        ':'
    }
}

/// What the value of the attribute is made of.
pub open spec fn class_of(kind: AttributeKind) -> ValueClass {
    if is_specified(kind) {
        ValueClass::Name
    } else if kind == AttributeKind::FieldSelector || kind == AttributeKind::LabelSelector {
        ValueClass::Word
    } else {
        ValueClass::Regex
    }
}

/// The kinds of attributes in the order in which they are tried.
pub open spec fn kinds() -> Seq<AttributeKind> {
    seq![
        AttributeKind::SpecifiedPod,
        AttributeKind::SpecifiedDaemonSet,
        AttributeKind::SpecifiedDeployment,
        AttributeKind::SpecifiedJob,
        AttributeKind::SpecifiedReplicaSet,
        AttributeKind::SpecifiedService,
        AttributeKind::SpecifiedStatefulSet,
        AttributeKind::FieldSelector,
        AttributeKind::LabelSelector,
        AttributeKind::Pod,
        AttributeKind::ExcludePod,
        AttributeKind::Container,
        AttributeKind::ExcludeContainer,
        AttributeKind::IncludeLog,
        AttributeKind::ExcludeLog,
    ]
}

/// Whether `c` is white space between attributes.
pub open spec fn is_space(c: char) -> bool {
    c == ' ' || c == '\t' || c == '\r' || c == '\n'
}

/// Whether `c` can stand in the name of a resource.
pub open spec fn is_name_char(c: char) -> bool {
    ('a' <= c <= 'z') || ('A' <= c <= 'Z') || ('0' <= c <= '9') || c == '-' || c == '.'
}

/// The first position at or after `from` that holds no white space.
pub open spec fn space_end(s: Seq<char>, from: int) -> int
    decreases s.len() - from,
{
    if 0 <= from < s.len() && is_space(s[from]) {
        space_end(s, from + 1)
    } else {
        from
    }
}

/// The first position at or after `from` that holds white space.
pub open spec fn word_end(s: Seq<char>, from: int) -> int
    decreases s.len() - from,
{
    if 0 <= from < s.len() && !is_space(s[from]) {
        word_end(s, from + 1)
    } else {
        from
    }
}

/// The first position at or after `from` that holds no character of a
/// name.
pub open spec fn name_end(s: Seq<char>, from: int) -> int
    decreases s.len() - from,
{
    if 0 <= from < s.len() && is_name_char(s[from]) {
        name_end(s, from + 1)
    } else {
        from
    }
}

/// The position of the quote that closes what starts at `from`: the first
/// `quote` that no backslash stands before. A backslash takes the
/// character behind it along. The length of `s` where no quote closes.
pub open spec fn quote_end(s: Seq<char>, from: int, quote: char) -> int
    decreases s.len() - from,
{
    if from < 0 || from >= s.len() {
        s.len() as int
    } else if s[from] == '\\' {
        if from + 1 >= s.len() {
            s.len() as int
        } else {
            quote_end(s, from + 2, quote)
        }
    } else if s[from] == quote {
        from
    } else {
        quote_end(s, from + 1, quote)
    }
}

/// A value: where it starts, where it ends, and where what follows it
/// starts.
pub ghost struct Value {
    pub start: int,
    pub end: int,
    pub next: int,
}

/// The value in quotes at `from`, if one stands there: it is not empty,
/// and the closing quote is there.
pub open spec fn quoted(s: Seq<char>, from: int, quote: char) -> Option<Value> {
    let e = quote_end(s, from + 1, quote);
    if 0 <= from < s.len() && s[from] == quote && from + 1 < e < s.len() {
        Some(Value { start: from + 1, end: e, next: e + 1 })
    } else {
        None
    }
}

/// The run of characters at `from` up to `end`, if it is not empty.
pub open spec fn run(from: int, end: int) -> Option<Value> {
    if end > from {
        Some(Value { start: from, end, next: end })
    } else {
        None
    }
}

/// The value of the given class at `from`, if one stands there.
pub open spec fn value_at(s: Seq<char>, from: int, class: ValueClass) -> Option<Value> {
    match class {
        ValueClass::Name => run(from, name_end(s, from)),
        ValueClass::Word => run(from, word_end(s, from)),
        ValueClass::Regex => if quoted(s, from, '"') is Some {
            quoted(s, from, '"')
        } else if quoted(s, from, '\'') is Some {
            quoted(s, from, '\'')
        } else {
            run(from, word_end(s, from))
        },
    }
}

/// Whether `tag` stands in `s` at `at`.
pub open spec fn stands_at(s: Seq<char>, at: int, tag: Seq<char>) -> bool {
    0 <= at && at + tag.len() <= s.len() && s.subrange(at, at + tag.len()) == tag
}

/// The length of the first of `tags` from position `k` on that stands in
/// `s` at `at`, if any does.
pub open spec fn first_tag(s: Seq<char>, at: int, tags: Seq<Seq<char>>, k: int) -> Option<int>
    decreases tags.len() - k,
{
    if k < 0 || k >= tags.len() {
        None
    } else if stands_at(s, at, tags[k]) {
        Some(tags[k].len() as int)
    } else {
        first_tag(s, at, tags, k + 1)
    }
}

/// The attribute of the given kind at `at`, with the position behind it,
/// if one stands there.
pub open spec fn attribute_of(s: Seq<char>, at: int, kind: AttributeKind) -> Option<
    (Attribute, int),
> {
    match first_tag(s, at, tags_of(kind), 0) {
        Some(len) => {
            let p = at + len;
            if p < s.len() && s[p] == separator_of(kind) {
                match value_at(s, p + 1, class_of(kind)) {
                    Some(v) => Some((Attribute { kind, value: s.subrange(v.start, v.end) }, v.next)),
                    None => None,
                }
            } else {
                None
            }
        },
        None => None,
    }
}

/// The attribute at `at` of the first kind from position `k` of `kinds()`
/// on of which one stands there.
pub open spec fn attribute_from(s: Seq<char>, at: int, k: int) -> Option<(Attribute, int)>
    decreases kinds().len() - k,
{
    if k < 0 || k >= kinds().len() {
        None
    } else if attribute_of(s, at, kinds()[k]) is Some {
        attribute_of(s, at, kinds()[k])
    } else {
        attribute_from(s, at, k + 1)
    }
}

/// The attribute at `at`, with the position behind it.
pub open spec fn attribute_at(s: Seq<char>, at: int) -> Option<(Attribute, int)> {
    attribute_from(s, at, 0)
}

/// An attribute reaches past the position where it starts, and not past
/// the end of the text.
pub proof fn lemma_attribute_of_advances(s: Seq<char>, at: int, kind: AttributeKind)
    requires
        0 <= at <= s.len(),
        attribute_of(s, at, kind) is Some,
    ensures
        at < (attribute_of(s, at, kind)->0).1 <= s.len(),
{
    let tags = tags_of(kind);
    lemma_first_tag(s, at, tags, 0);
    let len = first_tag(s, at, tags, 0)->0;
    let p = at + len;
    lemma_ends(s, p + 1);
    lemma_quote_end(s, p + 2, '"');
    lemma_quote_end(s, p + 2, '\'');
}

proof fn lemma_first_tag(s: Seq<char>, at: int, tags: Seq<Seq<char>>, k: int)
    requires
        0 <= k,
        first_tag(s, at, tags, k) is Some,
    ensures
        first_tag(s, at, tags, k)->0 >= 0,
        at + first_tag(s, at, tags, k)->0 <= s.len(),
    decreases tags.len() - k,
{
    if k < tags.len() && !stands_at(s, at, tags[k]) {
        lemma_first_tag(s, at, tags, k + 1);
    }
}

/// A run of white space, of a word or of a name ends at or behind the
/// position where it starts, and inside the text.
pub proof fn lemma_ends(s: Seq<char>, from: int)
    requires
        0 <= from,
    ensures
        from <= space_end(s, from),
        from <= word_end(s, from),
        from <= name_end(s, from),
        from <= s.len() ==> space_end(s, from) <= s.len() && word_end(s, from) <= s.len()
            && name_end(s, from) <= s.len(),
    decreases s.len() - from,
{
    if from < s.len() {
        lemma_ends(s, from + 1);
    }
}

/// What stands between quotes ends inside the text, at or behind the
/// position where it starts.
pub proof fn lemma_quote_end(s: Seq<char>, from: int, quote: char)
    requires
        0 <= from,
    ensures
        quote_end(s, from, quote) <= s.len(),
        from <= s.len() ==> from <= quote_end(s, from, quote),
    decreases s.len() - from,
{
    if from < s.len() {
        if s[from] == '\\' {
            if from + 1 < s.len() {
                lemma_quote_end(s, from + 2, quote);
            }
        } else if s[from] != quote {
            lemma_quote_end(s, from + 1, quote);
        }
    }
}

/// An attribute is not empty and ends inside the text.
pub proof fn lemma_attribute_advances(s: Seq<char>, at: int, k: int)
    requires
        0 <= at <= s.len(),
        0 <= k,
        attribute_from(s, at, k) is Some,
    ensures
        at < (attribute_from(s, at, k)->0).1 <= s.len(),
    decreases kinds().len() - k,
{
    if k < kinds().len() {
        if attribute_of(s, at, kinds()[k]) is Some {
            lemma_attribute_of_advances(s, at, kinds()[k]);
        } else {
            lemma_attribute_advances(s, at, k + 1);
        }
    }
}

/// The attributes that follow position `e`, each behind white space, and
/// the position behind the last of them.
pub open spec fn rest_from(s: Seq<char>, e: int) -> (Seq<Attribute>, int)
    decreases s.len() - e,
    via rest_from_decreases
{
    let sp = space_end(s, e);
    if e < 0 || e > s.len() || sp == e {
        (seq![], e)
    } else {
        match attribute_at(s, sp) {
            Some((a, next)) => {
                let r = rest_from(s, next);
                (seq![a] + r.0, r.1)
            },
            None => (seq![], e),
        }
    }
}

#[via_fn]
proof fn rest_from_decreases(s: Seq<char>, e: int) {
    let sp = space_end(s, e);
    if !(e < 0 || e > s.len() || sp == e) {
        lemma_ends(s, e);
        if attribute_at(s, sp) is Some {
            lemma_attribute_advances(s, sp, 0);
        }
    }
}

/// The attributes from position `at` on, and the position behind the last
/// of them.
pub open spec fn list_from(s: Seq<char>, at: int) -> (Seq<Attribute>, int) {
    match attribute_at(s, at) {
        Some((a, next)) => {
            let r = rest_from(s, next);
            (seq![a] + r.0, r.1)
        },
        None => (seq![], at),
    }
}

/// The attributes of the query `s`, if `s` is a query: white space, a
/// list of attributes, white space, and nothing more.
pub open spec fn parse_query(s: Seq<char>) -> Option<Seq<Attribute>> {
    let (list, e) = list_from(s, space_end(s, 0));
    if space_end(s, e) == s.len() {
        Some(list)
    } else {
        None
    }
}

/// That a text is no query.
#[derive(Clone, Copy, Debug, PartialEq, Eq, Structural)]
pub struct ParseError {
    /// The position behind the last attribute and the white space behind
    /// it, where something stands that does not belong there.
    pub position: usize,
}

fn is_space_char(c: char) -> (r: bool)
    ensures
        r == is_space(c),
{
    c == ' ' || c == '\t' || c == '\r' || c == '\n'
}

fn is_name(c: char) -> (r: bool)
    ensures
        r == is_name_char(c),
{
    ('a' <= c && c <= 'z') || ('A' <= c && c <= 'Z') || ('0' <= c && c <= '9') || c == '-' || c
        == '.'
}

fn skip_space(chars: &Vec<char>, from: usize) -> (r: usize)
    requires
        from <= chars.len(),
    ensures
        r == space_end(chars@, from as int),
        from <= r <= chars.len(),
{
    let mut i: usize = from;
    while i < chars.len() && is_space_char(chars[i])
        invariant
            from <= i <= chars.len(),
            space_end(chars@, from as int) == space_end(chars@, i as int),
        decreases chars.len() - i,
    {
        i += 1;
    }
    i
}

fn skip_word(chars: &Vec<char>, from: usize) -> (r: usize)
    requires
        from <= chars.len(),
    ensures
        r == word_end(chars@, from as int),
        from <= r <= chars.len(),
{
    let mut i: usize = from;
    while i < chars.len() && !is_space_char(chars[i])
        invariant
            from <= i <= chars.len(),
            word_end(chars@, from as int) == word_end(chars@, i as int),
        decreases chars.len() - i,
    {
        i += 1;
    }
    i
}

fn skip_name(chars: &Vec<char>, from: usize) -> (r: usize)
    requires
        from <= chars.len(),
    ensures
        r == name_end(chars@, from as int),
        from <= r <= chars.len(),
{
    let mut i: usize = from;
    while i < chars.len() && is_name(chars[i])
        invariant
            from <= i <= chars.len(),
            name_end(chars@, from as int) == name_end(chars@, i as int),
        decreases chars.len() - i,
    {
        i += 1;
    }
    i
}

fn find_quote(chars: &Vec<char>, from: usize, quote: char) -> (r: usize)
    requires
        from <= chars.len(),
    ensures
        r == quote_end(chars@, from as int, quote),
        from <= r <= chars.len(),
{
    let n: usize = chars.len();
    let mut i: usize = from;
    while i < n
        invariant
            n == chars.len(),
            from <= i <= n,
            quote_end(chars@, from as int, quote) == quote_end(chars@, i as int, quote),
        decreases n - i,
    {
        let c: char = chars[i];
        if c == '\\' {
            if n - i < 2 {
                return n;
            }
            i += 2;
        } else if c == quote {
            return i;
        } else {
            i += 1;
        }
    }
    n
}

/// A value as positions in the text.
struct Found {
    start: usize,
    end: usize,
    next: usize,
}

impl Found {
    spec fn value(&self) -> Value {
        Value { start: self.start as int, end: self.end as int, next: self.next as int }
    }

    spec fn inside(&self, len: nat) -> bool {
        self.start <= self.end <= self.next <= len
    }
}

fn read_quoted(chars: &Vec<char>, from: usize, quote: char) -> (r: Option<Found>)
    requires
        from <= chars.len(),
    ensures
        r is Some == quoted(chars@, from as int, quote) is Some,
        r is Some ==> r->0.value() == quoted(chars@, from as int, quote)->0 && r->0.inside(
            chars@.len(),
        ),
{
    if from >= chars.len() || chars[from] != quote {
        return None;
    }
    let e: usize = find_quote(chars, from + 1, quote);
    if from + 1 < e && e < chars.len() {
        Some(Found { start: from + 1, end: e, next: e + 1 })
    } else {
        None
    }
}

fn read_value(chars: &Vec<char>, from: usize, class: ValueClass) -> (r: Option<Found>)
    requires
        from <= chars.len(),
    ensures
        r is Some == value_at(chars@, from as int, class) is Some,
        r is Some ==> r->0.value() == value_at(chars@, from as int, class)->0 && r->0.inside(
            chars@.len(),
        ),
{
    let end: usize = match class {
        ValueClass::Name => skip_name(chars, from),
        ValueClass::Word => skip_word(chars, from),
        ValueClass::Regex => {
            match read_quoted(chars, from, '"') {
                Some(found) => {
                    return Some(found);
                },
                None => {},
            }
            match read_quoted(chars, from, '\'') {
                Some(found) => {
                    return Some(found);
                },
                None => {},
            }
            skip_word(chars, from)
        },
    };
    if end > from {
        Some(Found { start: from, end, next: end })
    } else {
        None
    }
}

fn tag_stands(chars: &Vec<char>, at: usize, tag: &str) -> (r: Option<usize>)
    requires
        at <= chars.len(),
    ensures
        r is Some == stands_at(chars@, at as int, tag@),
        r is Some ==> r->0 == tag@.len() && at + r->0 <= chars.len(),
{
    let t: Vec<char> = to_chars(tag);
    if t.len() > chars.len() - at {
        return None;
    }
    let mut i: usize = 0;
    while i < t.len()
        invariant
            i <= t.len(),
            t@ == tag@,
            at + t.len() <= chars.len(),
            forall|j: int| 0 <= j < i ==> chars@[at + j] == t@[j],
        decreases t.len() - i,
    {
        if chars[at + i] != t[i] {
            assert(chars@.subrange(at as int, at + t.len())[i as int] != t@[i as int]);
            return None;
        }
        i += 1;
    }
    assert(chars@.subrange(at as int, at + t.len()) =~= t@);
    Some(t.len())
}

/// The texts that `tags` hold.
pub open spec fn tag_texts(tags: Seq<&'static str>) -> Seq<Seq<char>> {
    Seq::new(tags.len(), |i: int| tags[i]@)
}

fn one(a: &'static str) -> (r: Vec<&'static str>)
    ensures
        tag_texts(r@) == seq![a@],
{
    let mut v: Vec<&'static str> = Vec::new();
    v.push(a);
    assert(tag_texts(v@) =~= seq![a@]);
    v
}

fn two(a: &'static str, b: &'static str) -> (r: Vec<&'static str>)
    ensures
        tag_texts(r@) == seq![a@, b@],
{
    let mut v: Vec<&'static str> = Vec::new();
    v.push(a);
    v.push(b);
    assert(tag_texts(v@) =~= seq![a@, b@]);
    v
}

fn three(a: &'static str, b: &'static str, c: &'static str) -> (r: Vec<&'static str>)
    ensures
        tag_texts(r@) == seq![a@, b@, c@],
{
    let mut v: Vec<&'static str> = Vec::new();
    v.push(a);
    v.push(b);
    v.push(c);
    assert(tag_texts(v@) =~= seq![a@, b@, c@]);
    v
}

/// The keywords of an attribute, the longest first.
fn keywords(kind: AttributeKind) -> (r: Vec<&'static str>)
    ensures
        tag_texts(r@) == tags_of(kind),
{
    match kind {
        AttributeKind::SpecifiedPod => two("pod", "po"),
        AttributeKind::SpecifiedDaemonSet => two("daemonset", "ds"),
        AttributeKind::SpecifiedDeployment => two("deployment", "deploy"),
        AttributeKind::SpecifiedJob => one("job"),
        AttributeKind::SpecifiedReplicaSet => two("replicaset", "rs"),
        AttributeKind::SpecifiedService => two("service", "svc"),
        AttributeKind::SpecifiedStatefulSet => two("statefulset", "sts"),
        AttributeKind::FieldSelector => three("fields", "field", "f"),
        AttributeKind::LabelSelector => three("labels", "label", "l"),
        AttributeKind::Pod => three("pod", "po", "p"),
        AttributeKind::ExcludePod => three("!pod", "!po", "!p"),
        AttributeKind::Container => three("container", "co", "c"),
        AttributeKind::ExcludeContainer => three("!container", "!co", "!c"),
        AttributeKind::IncludeLog => two("log", "lo"),
        AttributeKind::ExcludeLog => two("!log", "!lo"),
    }
}

fn specified(kind: AttributeKind) -> (r: bool)
    ensures
        r == is_specified(kind),
{
    match kind {
        AttributeKind::SpecifiedPod => true,
        AttributeKind::SpecifiedDaemonSet => true,
        AttributeKind::SpecifiedDeployment => true,
        AttributeKind::SpecifiedJob => true,
        AttributeKind::SpecifiedReplicaSet => true,
        AttributeKind::SpecifiedService => true,
        AttributeKind::SpecifiedStatefulSet => true,
        _ => false,
    }
}

fn class(kind: AttributeKind) -> (r: ValueClass)
    ensures
        r == class_of(kind),
{
    if specified(kind) {
        ValueClass::Name
    } else {
        match kind {
            AttributeKind::FieldSelector => ValueClass::Word,
            AttributeKind::LabelSelector => ValueClass::Word,
            _ => ValueClass::Regex,
        }
    }
}

/// The attribute of the given kind with the given value.
pub fn filter_attribute<'a>(kind: AttributeKind, value: &'a str) -> (r: FilterAttribute<'a>)
    ensures
        r@ == (Attribute { kind, value: value@ }),
{
    match kind {
        AttributeKind::SpecifiedPod => FilterAttribute::Resource(SpecifiedResource::Pod(value)),
        AttributeKind::SpecifiedDaemonSet => FilterAttribute::Resource(
            SpecifiedResource::DaemonSet(value),
        ),
        AttributeKind::SpecifiedDeployment => FilterAttribute::Resource(
            SpecifiedResource::Deployment(value),
        ),
        AttributeKind::SpecifiedJob => FilterAttribute::Resource(SpecifiedResource::Job(value)),
        AttributeKind::SpecifiedReplicaSet => FilterAttribute::Resource(
            SpecifiedResource::ReplicaSet(value),
        ),
        AttributeKind::SpecifiedService => FilterAttribute::Resource(
            SpecifiedResource::Service(value),
        ),
        AttributeKind::SpecifiedStatefulSet => FilterAttribute::Resource(
            SpecifiedResource::StatefulSet(value),
        ),
        AttributeKind::FieldSelector => FilterAttribute::FieldSelector(value),
        AttributeKind::LabelSelector => FilterAttribute::LabelSelector(value),
        AttributeKind::Pod => FilterAttribute::Pod(value),
        AttributeKind::ExcludePod => FilterAttribute::ExcludePod(value),
        AttributeKind::Container => FilterAttribute::Container(value),
        AttributeKind::ExcludeContainer => FilterAttribute::ExcludeContainer(value),
        AttributeKind::IncludeLog => FilterAttribute::IncludeLog(value),
        AttributeKind::ExcludeLog => FilterAttribute::ExcludeLog(value),
    }
}

/// The length of the first of `tags` that stands at `at`.
fn read_tag(chars: &Vec<char>, at: usize, tags: &Vec<&'static str>) -> (r: Option<usize>)
    requires
        at <= chars.len(),
    ensures
        r is Some == first_tag(chars@, at as int, tag_texts(tags@), 0) is Some,
        r is Some ==> r->0 == first_tag(chars@, at as int, tag_texts(tags@), 0)->0 && at + r->0
            <= chars.len(),
{
    let mut k: usize = 0;
    while k < tags.len()
        invariant
            k <= tags.len(),
            at <= chars.len(),
            first_tag(chars@, at as int, tag_texts(tags@), 0) == first_tag(
                chars@,
                at as int,
                tag_texts(tags@),
                k as int,
            ),
        decreases tags.len() - k,
    {
        assert(tag_texts(tags@)[k as int] == tags@[k as int]@);
        match tag_stands(chars, at, tags[k]) {
            Some(len) => {
                return Some(len);
            },
            None => {},
        }
        k += 1;
    }
    None
}

/// Reads the attribute of the given kind at `at`.
fn read_attribute_of<'a>(text: &'a str, chars: &Vec<char>, at: usize, kind: AttributeKind) -> (r:
    Option<(FilterAttribute<'a>, usize)>)
    requires
        chars@ == text@,
        at <= chars.len(),
    ensures
        r is Some == attribute_of(chars@, at as int, kind) is Some,
        r is Some ==> (r->0).0@ == (attribute_of(chars@, at as int, kind)->0).0 && (r->0).1 == (
        attribute_of(chars@, at as int, kind)->0).1 && at < (r->0).1 <= chars.len(),
{
    let tags: Vec<&'static str> = keywords(kind);
    let len: usize = match read_tag(chars, at, &tags) {
        Some(len) => len,
        None => {
            return None;
        },
    };
    let p: usize = at + len;
    let separator: char = if specified(kind) {
        '/'
    } else {
        ':'
    };
    if p >= chars.len() || chars[p] != separator {
        return None;
    }
    match read_value(chars, p + 1, class(kind)) {
        Some(found) => {
            let value: &'a str = text.substring_char(found.start, found.end);
            proof {
                lemma_attribute_of_advances(chars@, at as int, kind);
            }
            Some((filter_attribute(kind, value), found.next))
        },
        None => None,
    }
}

fn kind_at(k: usize) -> (r: AttributeKind)
    requires
        k < 15,
    ensures
        kinds().len() == 15,
        r == kinds()[k as int],
{
    if k == 0 {
        AttributeKind::SpecifiedPod
    } else if k == 1 {
        AttributeKind::SpecifiedDaemonSet
    } else if k == 2 {
        AttributeKind::SpecifiedDeployment
    } else if k == 3 {
        AttributeKind::SpecifiedJob
    } else if k == 4 {
        AttributeKind::SpecifiedReplicaSet
    } else if k == 5 {
        AttributeKind::SpecifiedService
    } else if k == 6 {
        AttributeKind::SpecifiedStatefulSet
    } else if k == 7 {
        AttributeKind::FieldSelector
    } else if k == 8 {
        AttributeKind::LabelSelector
    } else if k == 9 {
        AttributeKind::Pod
    } else if k == 10 {
        AttributeKind::ExcludePod
    } else if k == 11 {
        AttributeKind::Container
    } else if k == 12 {
        AttributeKind::ExcludeContainer
    } else if k == 13 {
        AttributeKind::IncludeLog
    } else {
        AttributeKind::ExcludeLog
    }
}

/// Reads the attribute at `at`.
fn read_attribute<'a>(text: &'a str, chars: &Vec<char>, at: usize) -> (r: Option<
    (FilterAttribute<'a>, usize),
>)
    requires
        chars@ == text@,
        at <= chars.len(),
    ensures
        r is Some == attribute_at(chars@, at as int) is Some,
        r is Some ==> (r->0).0@ == (attribute_at(chars@, at as int)->0).0 && (r->0).1 == (
        attribute_at(chars@, at as int)->0).1 && at < (r->0).1 <= chars.len(),
{
    let mut k: usize = 0;
    assert(kinds().len() == 15);
    while k < 15
        invariant
            k <= 15,
            kinds().len() == 15,
            chars@ == text@,
            at <= chars.len(),
            attribute_at(chars@, at as int) == attribute_from(chars@, at as int, k as int),
        decreases 15 - k,
    {
        match read_attribute_of(text, chars, at, kind_at(k)) {
            Some(found) => {
                return Some(found);
            },
            None => {},
        }
        k += 1;
    }
    None
}

/// The attribute at the head of `s`, and what follows it.
pub fn attribute<'a>(s: &'a str) -> (r: Option<(&'a str, FilterAttribute<'a>)>)
    ensures
        r is Some == attribute_at(s@, 0) is Some,
        r is Some ==> (r->0).1@ == (attribute_at(s@, 0)->0).0 && (r->0).0@ == s@.skip(
            (attribute_at(s@, 0)->0).1,
        ),
{
    let chars: Vec<char> = to_chars(s);
    match read_attribute(s, &chars, 0) {
        Some((found, next)) => {
            let rest: &'a str = s.substring_char(next, chars.len());
            assert(s@.subrange(next as int, s@.len() as int) == s@.skip(next as int));
            Some((rest, found))
        },
        None => None,
    }
}

/// The values of `attributes`.
pub open spec fn attribute_views(attributes: Seq<FilterAttribute>) -> Seq<Attribute> {
    Seq::new(attributes.len(), |i: int| attributes[i]@)
}

/// Reads a query. Gives the attributes of the query, with the empty text
/// that is left behind them, or says that the text is no query.
pub fn parse_attributes<'a>(s: &'a str) -> (r: Result<(&'a str, Vec<FilterAttribute<'a>>), ParseError>)
    ensures
        r is Ok == parse_query(s@) is Some,
        r is Ok ==> (r->Ok_0).0@.len() == 0 && attribute_views((r->Ok_0).1@) == parse_query(s@)->0,
        r is Err ==> r->Err_0.position == space_end(s@, list_from(s@, space_end(s@, 0)).1),
{
    let chars: Vec<char> = to_chars(s);
    let n: usize = chars.len();
    let start: usize = skip_space(&chars, 0);
    let mut out: Vec<FilterAttribute<'a>> = Vec::new();
    let ghost whole = list_from(chars@, start as int);
    let mut e: usize = start;
    match read_attribute(s, &chars, start) {
        Some((first, next)) => {
            out.push(first);
            e = next;
            assert(attribute_views(out@) =~= seq![first@]);
            loop
                invariant
                    chars@ == s@,
                    n == chars.len(),
                    e <= n,
                    whole == list_from(chars@, start as int),
                    attribute_views(out@) + rest_from(chars@, e as int).0 == whole.0,
                    rest_from(chars@, e as int).1 == whole.1,
                ensures
                    attribute_views(out@) == whole.0,
                    e == whole.1,
                    e <= n,
                decreases n - e,
            {
                let sp: usize = skip_space(&chars, e);
                if sp == e {
                    assert(attribute_views(out@) + Seq::<Attribute>::empty() =~= attribute_views(
                        out@,
                    ));
                    break ;
                }
                match read_attribute(s, &chars, sp) {
                    Some((found, next)) => {
                        proof {
                            let before = attribute_views(out@);
                            let r = rest_from(chars@, next as int);
                            assert(attribute_views(out@.push(found)) =~= before.push(found@));
                            assert(before.push(found@) + r.0 =~= before + (seq![found@] + r.0));
                        }
                        out.push(found);
                        e = next;
                    },
                    None => {
                        assert(attribute_views(out@) + Seq::<Attribute>::empty()
                            =~= attribute_views(out@));
                        break ;
                    },
                }
            }
        },
        None => {
            assert(attribute_views(out@) =~= Seq::<Attribute>::empty());
        },
    }
    let end: usize = skip_space(&chars, e);
    if end == n {
        let rest: &'a str = s.substring_char(n, n);
        Ok((rest, out))
    } else {
        Err(ParseError { position: end })
    }
}

} // verus!
