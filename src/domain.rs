//! Allow-list matching of request hosts.
//!
//! A pattern is a dot-separated domain whose first label may be the wildcard
//! `*`. It must have the shape `(*.)?(label.)+tld`, where a label is
//! alphanumeric runs joined by single hyphens and the top-level label is two or
//! more letters. A pattern of any other shape matches nothing. A literal label
//! matches itself exactly; the wildcard matches exactly one label.
use vstd::prelude::*;
use crate::text::{chars_eq, chars_of};

verus! {

pub open spec fn is_alnum(c: char) -> bool {
    ('a' <= c && c <= 'z') || ('A' <= c && c <= 'Z') || ('0' <= c && c <= '9')
}

pub open spec fn is_letter(c: char) -> bool {
    ('a' <= c && c <= 'z') || ('A' <= c && c <= 'Z')
}

/// `[A-Za-z0-9]+(-[A-Za-z0-9]+)*`: alphanumerics and hyphens, starting and
/// ending with an alphanumeric, with no two hyphens in a row.
pub open spec fn is_label(l: Seq<char>) -> bool {
    &&& l.len() >= 1
    &&& is_alnum(l[0])
    &&& is_alnum(l.last())
    &&& forall|i: int| 0 <= i < l.len() ==> is_alnum(#[trigger] l[i]) || l[i] == '-'
    &&& forall|i: int| 0 <= i < l.len() - 1 && #[trigger] l[i] == '-' ==> l[i + 1] != '-'
}

/// `[A-Za-z]{2,}`
pub open spec fn is_tld(l: Seq<char>) -> bool {
    &&& l.len() >= 2
    &&& forall|i: int| 0 <= i < l.len() ==> is_letter(#[trigger] l[i])
}

/// The pieces of `s` between dots, in order; there is always at least one.
pub open spec fn split_labels(s: Seq<char>) -> Seq<Seq<char>>
    decreases s.len(),
{
    if s.len() == 0 {
        seq![Seq::<char>::empty()]
    } else {
        let prev = split_labels(s.drop_last());
        if s.last() == '.' {
            prev.push(Seq::<char>::empty())
        } else {
            prev.update(prev.len() - 1, prev.last().push(s.last()))
        }
    }
}

/// Joins labels with dots: the inverse of `split_labels`.
pub open spec fn join_labels(ls: Seq<Seq<char>>) -> Seq<char>
    decreases ls.len(),
{
    if ls.len() <= 1 {
        if ls.len() == 1 { ls[0] } else { Seq::<char>::empty() }
    } else {
        join_labels(ls.drop_last()) + seq!['.'] + ls.last()
    }
}

pub open spec fn wildcard() -> Seq<char> {
    seq!['*']
}

/// `(label.)+tld`, as a sequence of labels.
pub open spec fn is_domain_body(ls: Seq<Seq<char>>) -> bool {
    &&& ls.len() >= 2
    &&& forall|i: int| 0 <= i < ls.len() - 1 ==> is_label(#[trigger] ls[i])
    &&& is_tld(ls.last())
}

/// Whether a pattern's labels have the allow-list shape `(*.)?(label.)+tld`.
pub open spec fn is_valid_pattern_labels(pl: Seq<Seq<char>>) -> bool {
    if pl.len() >= 1 && pl[0] == wildcard() {
        is_domain_body(pl.drop_first())
    } else {
        is_domain_body(pl)
    }
}

pub open spec fn is_valid_pattern(p: Seq<char>) -> bool {
    is_valid_pattern_labels(split_labels(p))
}

/// Label-wise match: the same number of labels, a leading wildcard takes any
/// one label, every other label is equal.
pub open spec fn labels_match(pl: Seq<Seq<char>>, hl: Seq<Seq<char>>) -> bool {
    &&& pl.len() == hl.len()
    &&& forall|i: int|
        0 <= i < pl.len() ==> if i == 0 && pl[0] == wildcard() {
            is_label(#[trigger] hl[i])
        } else {
            hl[i] == pl[i]
        }
}

/// Whether the pattern `p` authorizes the host `host`.
pub open spec fn pattern_matches(p: Seq<char>, host: Seq<char>) -> bool {
    is_valid_pattern(p) && labels_match(split_labels(p), split_labels(host))
}

/// Whether some pattern of the allow-list authorizes `host`.
pub open spec fn host_allowed(patterns: Seq<Seq<char>>, host: Seq<char>) -> bool {
    exists|i: int| 0 <= i < patterns.len() && pattern_matches(#[trigger] patterns[i], host)
}

pub open spec fn views(v: Seq<Vec<char>>) -> Seq<Seq<char>> {
    v.map_values(|l: Vec<char>| l@)
}

pub open spec fn string_views(v: Seq<String>) -> Seq<Seq<char>> {
    v.map_values(|s: String| s@)
}

fn is_alnum_exec(c: char) -> (r: bool)
    ensures
        r == is_alnum(c),
{
    ('a' <= c && c <= 'z') || ('A' <= c && c <= 'Z') || ('0' <= c && c <= '9')
}

fn is_letter_exec(c: char) -> (r: bool)
    ensures
        r == is_letter(c),
{
    ('a' <= c && c <= 'z') || ('A' <= c && c <= 'Z')
}

/// Splits a character sequence at its dots.
pub fn split_at_dots(s: &Vec<char>) -> (r: Vec<Vec<char>>)
    ensures
        views(r@) == split_labels(s@),
{
    let mut done: Vec<Vec<char>> = Vec::new();
    let mut cur: Vec<char> = Vec::new();
    let mut i: usize = 0;
    assert(s@.subrange(0, 0) =~= Seq::<char>::empty());
    assert(views(done@).push(cur@) =~= split_labels(Seq::<char>::empty()));
    while i < s.len()
        invariant
            i <= s@.len(),
            views(done@).push(cur@) == split_labels(s@.subrange(0, i as int)),
        decreases s@.len() - i,
    {
        let ghost prefix = s@.subrange(0, i as int);
        let ghost next = s@.subrange(0, i + 1);
        assert(next.drop_last() =~= prefix);
        assert(next.last() == s@[i as int]);
        let c = s[i];
        if c == '.' {
            let ghost before = views(done@).push(cur@);
            let finished = cur;
            done.push(finished);
            cur = Vec::new();
            assert(views(done@) =~= before);
            assert(views(done@).push(cur@) =~= before.push(Seq::<char>::empty()));
        } else {
            let ghost before = views(done@).push(cur@);
            cur.push(c);
            assert(views(done@).push(cur@) =~= before.update(
                before.len() - 1,
                before.last().push(c),
            ));
        }
        i = i + 1;
    }
    assert(s@.subrange(0, s@.len() as int) =~= s@);
    let ghost before = views(done@).push(cur@);
    done.push(cur);
    assert(views(done@) =~= before);
    done
}

fn is_label_exec(l: &Vec<char>) -> (r: bool)
    ensures
        r == is_label(l@),
{
    let n = l.len();
    if n == 0 {
        return false;
    }
    if !is_alnum_exec(l[0]) || !is_alnum_exec(l[n - 1]) {
        return false;
    }
    let mut i: usize = 0;
    while i < n
        invariant
            n == l@.len(),
            n >= 1,
            is_alnum(l@[0]),
            is_alnum(l@.last()),
            i <= n,
            forall|j: int| 0 <= j < i ==> is_alnum(#[trigger] l@[j]) || l@[j] == '-',
            forall|j: int| 0 <= j < i && j < n - 1 && #[trigger] l@[j] == '-' ==> l@[j + 1] != '-',
        decreases n - i,
    {
        let c = l[i];
        if !is_alnum_exec(c) && c != '-' {
            return false;
        }
        if c == '-' && i + 1 < n && l[i + 1] == '-' {
            return false;
        }
        i = i + 1;
    }
    true
}

fn is_tld_exec(l: &Vec<char>) -> (r: bool)
    ensures
        r == is_tld(l@),
{
    if l.len() < 2 {
        return false;
    }
    let mut i: usize = 0;
    while i < l.len()
        invariant
            i <= l@.len(),
            forall|j: int| 0 <= j < i ==> is_letter(#[trigger] l@[j]),
        decreases l@.len() - i,
    {
        if !is_letter_exec(l[i]) {
            return false;
        }
        i = i + 1;
    }
    true
}

fn is_wildcard_exec(l: &Vec<char>) -> (r: bool)
    ensures
        r == (l@ == wildcard()),
{
    if l.len() == 1 && l[0] == '*' {
        assert(l@ =~= wildcard());
        true
    } else {
        false
    }
}

/// Whether `labels[start..]` is `(label.)+tld`.
fn is_domain_body_from(labels: &Vec<Vec<char>>, start: usize) -> (r: bool)
    requires
        start <= labels@.len(),
    ensures
        r == is_domain_body(views(labels@).subrange(start as int, labels@.len() as int)),
{
    let ghost body = views(labels@).subrange(start as int, labels@.len() as int);
    let n = labels.len();
    if n - start < 2 {
        return false;
    }
    let mut i: usize = start;
    while i < n - 1
        invariant
            n == labels@.len(),
            n - start >= 2,
            start <= i <= n - 1,
            body == views(labels@).subrange(start as int, n as int),
            forall|j: int| 0 <= j < i - start ==> is_label(#[trigger] body[j]),
        decreases n - i,
    {
        if !is_label_exec(&labels[i]) {
            assert(body[i - start] == labels@[i as int]@);
            return false;
        }
        assert(body[i - start] == labels@[i as int]@);
        i = i + 1;
    }
    assert(body.last() == labels@[n - 1]@);
    is_tld_exec(&labels[n - 1])
}

/// Whether the labels of a pattern have the allow-list shape.
fn is_valid_pattern_exec(labels: &Vec<Vec<char>>) -> (r: bool)
    ensures
        r == is_valid_pattern_labels(views(labels@)),
{
    assert(views(labels@).subrange(0, labels@.len() as int) =~= views(labels@));
    if labels.len() >= 1 && is_wildcard_exec(&labels[0]) {
        assert(views(labels@).subrange(1, labels@.len() as int) =~= views(labels@).drop_first());
        is_domain_body_from(labels, 1)
    } else {
        is_domain_body_from(labels, 0)
    }
}

fn labels_match_exec(pl: &Vec<Vec<char>>, hl: &Vec<Vec<char>>) -> (r: bool)
    ensures
        r == labels_match(views(pl@), views(hl@)),
{
    let ghost p = views(pl@);
    let ghost h = views(hl@);
    if pl.len() != hl.len() {
        return false;
    }
    let mut i: usize = 0;
    while i < pl.len()
        invariant
            pl@.len() == hl@.len(),
            i <= pl@.len(),
            p == views(pl@),
            h == views(hl@),
            forall|j: int|
                0 <= j < i ==> if j == 0 && p[0] == wildcard() {
                    is_label(#[trigger] h[j])
                } else {
                    h[j] == p[j]
                },
        decreases pl@.len() - i,
    {
        assert(h[i as int] == hl@[i as int]@ && p[i as int] == pl@[i as int]@);
        let ok = if i == 0 && is_wildcard_exec(&pl[0]) {
            is_label_exec(&hl[0])
        } else {
            chars_eq(&hl[i], &pl[i])
        };
        if !ok {
            return false;
        }
        i = i + 1;
    }
    true
}

/// Whether the pattern authorizes the host.
pub fn is_pattern_match(pattern: &str, host: &str) -> (r: bool)
    ensures
        r == pattern_matches(pattern@, host@),
{
    let pl = split_at_dots(&chars_of(pattern));
    let hl = split_at_dots(&chars_of(host));
    is_valid_pattern_exec(&pl) && labels_match_exec(&pl, &hl)
}

/// Whether some pattern of `allow_domains` authorizes `domain`. Patterns that
/// do not have the allow-list shape are skipped; an empty list allows nothing.
pub fn is_allow_domain(allow_domains: &Vec<String>, domain: &str) -> (r: bool)
    ensures
        r == host_allowed(string_views(allow_domains@), domain@),
{
    let ghost ps = string_views(allow_domains@);
    let hl = split_at_dots(&chars_of(domain));
    let mut i: usize = 0;
    while i < allow_domains.len()
        invariant
            i <= allow_domains@.len(),
            ps == string_views(allow_domains@),
            views(hl@) == split_labels(domain@),
            forall|j: int| 0 <= j < i ==> !pattern_matches(#[trigger] ps[j], domain@),
        decreases allow_domains@.len() - i,
    {
        let pl = split_at_dots(&chars_of(allow_domains[i].as_str()));
        if is_valid_pattern_exec(&pl) && labels_match_exec(&pl, &hl) {
            assert(pattern_matches(ps[i as int], domain@));
            return true;
        }
        i = i + 1;
    }
    false
}

/// Appending a character to the last label appends it to the joined text.
proof fn lemma_join_extend_last(ls: Seq<Seq<char>>, c: char)
    requires
        ls.len() >= 1,
    ensures
        join_labels(ls.update(ls.len() - 1, ls.last().push(c))) == join_labels(ls).push(c),
    decreases ls.len(),
{
    let ext = ls.update(ls.len() - 1, ls.last().push(c));
    if ls.len() == 1 {
        assert(ext[0] == ls[0].push(c));
    } else {
        assert(ext.drop_last() =~= ls.drop_last());
        assert(join_labels(ext) =~= join_labels(ls).push(c));
    }
}

/// Splitting at dots and joining with dots gives back the text.
pub proof fn lemma_join_split(s: Seq<char>)
    ensures
        join_labels(split_labels(s)) == s,
    decreases s.len(),
{
    if s.len() > 0 {
        let t = s.drop_last();
        lemma_join_split(t);
        lemma_split_nonempty(t);
        if s.last() == '.' {
            let ls = split_labels(t).push(Seq::<char>::empty());
            assert(ls.drop_last() =~= split_labels(t));
            assert(join_labels(ls) =~= s);
        } else {
            lemma_join_extend_last(split_labels(t), s.last());
            assert(t.push(s.last()) =~= s);
        }
    }
}

/// There is always at least one label.
pub proof fn lemma_split_nonempty(s: Seq<char>)
    ensures
        split_labels(s).len() >= 1,
    decreases s.len(),
{
    if s.len() > 0 {
        lemma_split_nonempty(s.drop_last());
    }
}

/// The first label starts the joined text.
proof fn lemma_join_first_prefix(ls: Seq<Seq<char>>)
    requires
        ls.len() >= 1,
    ensures
        ls[0].len() <= join_labels(ls).len(),
        join_labels(ls).subrange(0, ls[0].len() as int) == ls[0],
    decreases ls.len(),
{
    if ls.len() > 1 {
        lemma_join_first_prefix(ls.drop_last());
        let j = join_labels(ls.drop_last());
        assert(join_labels(ls).subrange(0, ls[0].len() as int) =~= j.subrange(
            0,
            ls[0].len() as int,
        ));
    }
}

/// A text without `*` never has the wildcard as its first label.
proof fn lemma_no_star_no_wildcard(p: Seq<char>)
    requires
        !p.contains('*'),
    ensures
        split_labels(p)[0] != wildcard(),
{
    lemma_split_nonempty(p);
    lemma_join_split(p);
    lemma_join_first_prefix(split_labels(p));
    if split_labels(p)[0] == wildcard() {
        assert(p.subrange(0, 1)[0] == '*');
        assert(p[0] == '*');
    }
}

/// For an allow-list of well-formed patterns without a wildcard, a host is
/// allowed exactly when it is one of the patterns, letter for letter.
pub proof fn lemma_literal_patterns_match_exactly(patterns: Seq<Seq<char>>, host: Seq<char>)
    requires
        forall|i: int|
            0 <= i < patterns.len() ==> is_valid_pattern(#[trigger] patterns[i]) && !patterns[i].contains(
                '*',
            ),
    ensures
        host_allowed(patterns, host) <==> patterns.contains(host),
{
    assert forall|i: int| 0 <= i < patterns.len() implies pattern_matches(
        #[trigger] patterns[i],
        host,
    ) == (patterns[i] == host) by {
        let p = patterns[i];
        let pl = split_labels(p);
        let hl = split_labels(host);
        lemma_no_star_no_wildcard(p);
        lemma_join_split(p);
        lemma_join_split(host);
        if labels_match(pl, hl) {
            assert(pl =~= hl);
        }
        if p == host {
            assert(labels_match(pl, hl));
        }
    }
    if patterns.contains(host) {
        let k = choose|k: int| 0 <= k < patterns.len() && patterns[k] == host;
        assert(pattern_matches(patterns[k], host));
    }
}

/// A text without dots is a single label.
pub proof fn lemma_split_single(l: Seq<char>)
    requires
        !l.contains('.'),
    ensures
        split_labels(l) == seq![l],
    decreases l.len(),
{
    if l.len() > 0 {
        let t = l.drop_last();
        assert(!t.contains('.')) by {
            if t.contains('.') {
                let k = choose|k: int| 0 <= k < t.len() && t[k] == '.';
                assert(l[k] == '.');
            }
        }
        lemma_split_single(t);
        assert(l.last() != '.') by {
            if l.last() == '.' {
                assert(l[l.len() - 1] == '.');
            }
        }
        assert(t.push(l.last()) =~= l);
    } else {
        assert(l =~= Seq::<char>::empty());
    }
}

/// Splitting `a.b` gives the labels of `a` followed by those of `b`.
pub proof fn lemma_split_dot(a: Seq<char>, b: Seq<char>)
    ensures
        split_labels(a + seq!['.'] + b) == split_labels(a) + split_labels(b),
    decreases b.len(),
{
    let s = a + seq!['.'] + b;
    lemma_split_nonempty(a);
    if b.len() == 0 {
        assert(s.drop_last() =~= a);
        assert(s.last() == '.');
        assert(split_labels(a).push(Seq::<char>::empty()) =~= split_labels(a) + split_labels(b));
    } else {
        let b1 = b.drop_last();
        lemma_split_dot(a, b1);
        lemma_split_nonempty(b1);
        assert(s.drop_last() =~= a + seq!['.'] + b1);
        assert(s.last() == b.last());
        if b.last() == '.' {
            assert(split_labels(s) =~= split_labels(a) + split_labels(b));
        } else {
            assert(split_labels(s) =~= split_labels(a) + split_labels(b));
        }
    }
}

/// Joining peels off the first label.
proof fn lemma_join_first(ls: Seq<Seq<char>>)
    requires
        ls.len() >= 2,
    ensures
        join_labels(ls) == ls[0] + seq!['.'] + join_labels(ls.drop_first()),
    decreases ls.len(),
{
    if ls.len() > 2 {
        lemma_join_first(ls.drop_last());
        assert(ls.drop_last().drop_first() =~= ls.drop_first().drop_last());
        assert(ls.drop_first().last() == ls.last());
        assert(join_labels(ls.drop_first()) == join_labels(ls.drop_first().drop_last()) + seq!['.']
            + ls.last());
        assert(join_labels(ls) =~= ls[0] + seq!['.'] + join_labels(ls.drop_first()));
    } else {
        assert(ls.drop_last() =~= seq![ls[0]]);
        assert(ls.drop_first() =~= seq![ls[1]]);
        assert(join_labels(ls.drop_last()) == ls[0]);
        assert(join_labels(ls.drop_first()) == ls[1]);
        assert(join_labels(ls) == join_labels(ls.drop_last()) + seq!['.'] + ls.last());
    }
}

/// A label holds no dot.
proof fn lemma_label_has_no_dot(l: Seq<char>)
    requires
        is_label(l),
    ensures
        !l.contains('.'),
{
    if l.contains('.') {
        let k = choose|k: int| 0 <= k < l.len() && l[k] == '.';
        assert(is_alnum(l[k]) || l[k] == '-');
    }
}

/// The wildcard stands for exactly one label: a well-formed pattern `*.rest`
/// authorizes exactly the hosts made of one label, a dot, and `rest`. So it
/// matches neither `rest` itself nor a host with two labels in front of it.
pub proof fn lemma_wildcard_takes_one_label(rest: Seq<char>, host: Seq<char>)
    requires
        is_valid_pattern(seq!['*', '.'] + rest),
    ensures
        pattern_matches(seq!['*', '.'] + rest, host) <==> exists|k: int|
            0 < k < host.len() && host[k] == '.' && is_label(#[trigger] host.subrange(0, k))
                && host.subrange(k + 1, host.len() as int) == rest,
{
    let p = seq!['*', '.'] + rest;
    assert(p =~= wildcard() + seq!['.'] + rest);
    assert(!wildcard().contains('.')) by {
        assert(wildcard()[0] != '.');
    }
    lemma_split_single(wildcard());
    lemma_split_dot(wildcard(), rest);
    lemma_split_nonempty(rest);
    let pl = split_labels(p);
    let hl = split_labels(host);
    assert(pl =~= seq![wildcard()] + split_labels(rest));
    if pattern_matches(p, host) {
        lemma_join_split(host);
        lemma_join_split(rest);
        lemma_join_first(hl);
        assert(hl.drop_first() =~= split_labels(rest)) by {
            assert forall|i: int| 0 <= i < hl.drop_first().len() implies hl.drop_first()[i]
                == split_labels(rest)[i] by {
                assert(hl[i + 1] == pl[i + 1]);
            }
        }
        let k = hl[0].len() as int;
        assert(is_label(hl[0]));
        assert(host =~= hl[0] + seq!['.'] + rest);
        assert(host.subrange(0, k) =~= hl[0]);
        assert(host.subrange(k + 1, host.len() as int) =~= rest);
        assert(host[k] == '.');
    }
    if exists|k: int|
        0 < k < host.len() && host[k] == '.' && is_label(#[trigger] host.subrange(0, k))
            && host.subrange(k + 1, host.len() as int) == rest {
        let k = choose|k: int|
            0 < k < host.len() && host[k] == '.' && is_label(#[trigger] host.subrange(0, k))
                && host.subrange(k + 1, host.len() as int) == rest;
        let l = host.subrange(0, k);
        assert(host =~= l + seq!['.'] + rest);
        lemma_label_has_no_dot(l);
        lemma_split_single(l);
        lemma_split_dot(l, rest);
        assert(hl =~= seq![l] + split_labels(rest));
        assert(labels_match(pl, hl));
    }
}

/// A wildcard glued to a label (`*example.com`), a wildcard after the first
/// label (`*.*.example.com`) and a wildcard as the top-level label
/// (`hoge.example.*`) are malformed: such patterns match no host at all.
pub proof fn lemma_malformed_patterns_match_nothing(host: Seq<char>)
    ensures
        !pattern_matches("*example.com"@, host),
        !pattern_matches("*.*.example.com"@, host),
        !pattern_matches("hoge.example.*"@, host),
{
    reveal_strlit("*example.com");
    reveal_strlit("*.*.example.com");
    reveal_strlit("hoge.example.*");
    let star = seq!['*'];
    let glued_label = seq!['*', 'e', 'x', 'a', 'm', 'p', 'l', 'e'];
    let hoge = seq!['h', 'o', 'g', 'e'];
    let example = seq!['e', 'x', 'a', 'm', 'p', 'l', 'e'];
    let com = seq!['c', 'o', 'm'];
    let example_com = example + seq!['.'] + com;
    let glued = glued_label + seq!['.'] + com;
    let twice = star + seq!['.'] + (star + seq!['.'] + example_com);
    let top = hoge + seq!['.'] + (example + seq!['.'] + star);
    assert("*example.com"@ =~= glued);
    assert("*.*.example.com"@ =~= twice);
    assert("hoge.example.*"@ =~= top);
    assert(!star.contains('.')) by { assert(star[0] != '.'); }
    assert(!com.contains('.')) by {
        assert(forall|i: int| 0 <= i < 3 ==> com[i] != '.');
    }
    assert(!example.contains('.')) by {
        assert(forall|i: int| 0 <= i < 7 ==> example[i] != '.');
    }
    assert(!hoge.contains('.')) by {
        assert(forall|i: int| 0 <= i < 4 ==> hoge[i] != '.');
    }
    assert(!glued_label.contains('.')) by {
        assert(forall|i: int| 0 <= i < 8 ==> glued_label[i] != '.');
    }
    lemma_split_single(star);
    lemma_split_single(com);
    lemma_split_single(example);
    lemma_split_single(hoge);
    lemma_split_single(glued_label);
    lemma_split_dot(glued_label, com);
    lemma_split_dot(example, com);
    lemma_split_dot(star, example_com);
    lemma_split_dot(star, star + seq!['.'] + example_com);
    lemma_split_dot(example, star);
    lemma_split_dot(hoge, example + seq!['.'] + star);
    let gl = split_labels(glued);
    assert(gl[0] != wildcard()) by {
        assert(gl[0].len() != wildcard().len());
    }
    assert(!is_label(gl[0]));
    let tl = split_labels(twice);
    assert(tl.drop_first()[0] == wildcard());
    assert(!is_label(tl.drop_first()[0]));
    let hl = split_labels(top);
    assert(hl[0] != wildcard()) by {
        assert(hl[0].len() != wildcard().len());
    }
    assert(!is_tld(hl.last()));
}

} // verus!
