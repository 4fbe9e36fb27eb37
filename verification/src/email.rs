//! Reading e-mail: headers, senders and recipients, and the identities and
//! topics derived from them.

use crate::string_map::StringMap;
use crate::text::{
    from_chars, halves, join, joined_with, lines, lines_of, lowercase, lowercased, opt_str_view,
    opt_view, pieces, push_char, split, split_once, to_chars, trim, trim_matches, trimmed, views,
    without_edges,
};
use vstd::prelude::*;

verus! {

/// A character as it appears in a canonical id: lower-case ASCII letters and
/// digits stay, everything else becomes an underscore.
pub open spec fn id_char(c: char) -> char {
    if ('a' <= c && c <= 'z') || ('0' <= c && c <= '9') {
        c
    } else {
        '_'
    }
}

/// The canonical employee id of an e-mail address: `employee_email_`
/// followed by the address, trimmed and in lower case, with every character
/// that is no lower-case ASCII letter or digit replaced by an underscore.
pub open spec fn canonical_id(email: Seq<char>) -> Seq<char> {
    "employee_email_"@ + lowercased(trimmed(email)).map_values(|c: char| id_char(c))
}

/// The topics of a message with this subject: the subject, trimmed and in
/// lower case, or `(no subject)` where that is empty.
pub open spec fn topics_of(subject: Option<Seq<char>>) -> Seq<Seq<char>> {
    let folded = lowercased(
        trimmed(
            match subject {
                Some(s) => s,
                None => Seq::empty(),
            },
        ),
    );
    if folded.len() == 0 {
        seq!["(no subject)"@]
    } else {
        seq![folded]
    }
}

/// The canonical employee id of an e-mail address.
pub fn canonical_employee_id_from_email(email: &str) -> (r: String)
    ensures
        r@ == canonical_id(email@),
{
    let mut out = "employee_email_".to_owned();
    let folded = lowercase(trim(email));
    let chars = to_chars(folded.as_str());
    let ghost mapped = chars@.map_values(|c: char| id_char(c));
    let mut i: usize = 0;
    while i < chars.len()
        invariant
            i <= chars.len(),
            mapped == chars@.map_values(|c: char| id_char(c)),
            out@ == "employee_email_"@ + mapped.take(i as int),
        decreases chars.len() - i,
    {
        let c = chars[i];
        let kept = if ('a' <= c && c <= 'z') || ('0' <= c && c <= '9') {
            c
        } else {
            '_'
        };
        push_char(&mut out, kept);
        i += 1;
    }
    out
}

/// The topics of a message with this subject.
pub fn derive_topics(subject: &Option<String>) -> (r: Vec<String>)
    ensures
        crate::text::views(r@) == topics_of(
            opt_view(*subject),
        ),
{
    let folded = match subject {
        Some(s) => lowercase(trim(s.as_str())),
        None => {
            proof {
                reveal_strlit("");
                assert(""@ =~= Seq::<char>::empty());
            }
            lowercase(trim(""))
        },
    };
    let mut r: Vec<String> = Vec::new();
    if folded.as_str().unicode_len() == 0 {
        r.push("(no subject)".to_owned());
    } else {
        r.push(folded);
    }
    r
}

/// Whether `a` comes before `b` in the order of strings: at the first
/// position where they differ `a` has the smaller character, or `a` ends
/// there and `b` does not.
pub open spec fn lex_less(a: Seq<char>, b: Seq<char>) -> bool
    decreases a.len(),
{
    if b.len() == 0 {
        false
    } else if a.len() == 0 {
        true
    } else if a[0] != b[0] {
        a[0] < b[0]
    } else {
        lex_less(a.drop_first(), b.drop_first())
    }
}

/// The ascending list without repetition `v`, with `x` put in its place
/// unless it is already there.
pub open spec fn inserted(v: Seq<Seq<char>>, x: Seq<char>) -> Seq<Seq<char>>
    decreases v.len(),
{
    if v.len() == 0 {
        seq![x]
    } else if v[0] == x {
        v
    } else if lex_less(x, v[0]) {
        seq![x] + v
    } else {
        seq![v[0]] + inserted(v.drop_first(), x)
    }
}

/// The texts of `c` in ascending order, each once.
pub open spec fn sorted_unique(c: Seq<Seq<char>>) -> Seq<Seq<char>>
    decreases c.len(),
{
    if c.len() == 0 {
        Seq::empty()
    } else {
        inserted(sorted_unique(c.drop_last()), c.last())
    }
}

/// Whether a character may stand in an e-mail address beside the `@`: an
/// ASCII letter or digit, a dot, an underscore or a hyphen.
pub open spec fn is_address_char(c: char) -> bool {
    ||| ('a' <= c && c <= 'z')
    ||| ('A' <= c && c <= 'Z')
    ||| ('0' <= c && c <= '9')
    ||| c == '.'
    ||| c == '_'
    ||| c == '-'
}

/// Where the run of address characters that ends before position `i`
/// begins.
pub open spec fn left_edge(s: Seq<char>, i: int) -> int
    decreases i,
{
    if 0 < i <= s.len() && is_address_char(s[i - 1]) {
        left_edge(s, i - 1)
    } else {
        i
    }
}

/// Where the run of address characters that begins at position `r` ends.
pub open spec fn right_edge(s: Seq<char>, r: int) -> int
    decreases s.len() - r,
{
    if 0 <= r < s.len() && is_address_char(s[r]) {
        right_edge(s, r + 1)
    } else {
        r
    }
}

/// The addresses found in `s` from position `i` on, in order of
/// appearance: around each `@` the longest run of address characters on
/// either side, if neither side is empty and the whole holds a dot, trimmed
/// and in lower case. The search goes on behind an address, also one
/// without a dot.
pub open spec fn addresses_from(s: Seq<char>, i: int) -> Seq<Seq<char>>
    decreases s.len() - i,
{
    if i < 0 || i >= s.len() {
        Seq::empty()
    } else if s[i] == '@' {
        let l = left_edge(s, i);
        let r = right_edge(s, i + 1);
        if l < i && i + 1 < r <= s.len() {
            let candidate = s.subrange(l, r);
            if candidate.contains('.') {
                seq![lowercased(trimmed(candidate))] + addresses_from(s, r)
            } else {
                addresses_from(s, r)
            }
        } else {
            addresses_from(s, i + 1)
        }
    } else {
        addresses_from(s, i + 1)
    }
}

/// The e-mail addresses in `s`, in ascending order, each once.
pub open spec fn emails_in(s: Seq<char>) -> Seq<Seq<char>> {
    sorted_unique(addresses_from(s, 0))
}

/// The address and the name that a sender or recipient is written as;
/// `None` for a blank text. With an angle bracket, the address is what
/// stands in the brackets, in lower case, and the name what stands before
/// them, without quotes. Without one, the address is the one address in the
/// text, if there is exactly one.
pub open spec fn name_email_of(s: Seq<char>) -> Option<(Option<Seq<char>>, Option<Seq<char>>)> {
    let t = trimmed(s);
    if t.len() == 0 {
        None
    } else {
        match halves(t, '<') {
            Some((left, right)) => {
                let name = without_edges(trimmed(left), '"');
                let inner = match halves(right, '>') {
                    Some((e, _)) => trimmed(e),
                    None => trimmed(right),
                };
                Some(
                    (
                        Some(lowercased(inner)),
                        if trimmed(name).len() == 0 {
                            None
                        } else {
                            Some(name)
                        },
                    ),
                )
            },
            None => {
                let emails = emails_in(t);
                if emails.len() == 1 {
                    Some((Some(emails[0]), None))
                } else {
                    Some((None, None))
                }
            },
        }
    }
}

/// The recipients that one comma-separated part names.
pub open spec fn recipients_in_part(part: Seq<char>) -> Seq<(Seq<char>, Option<Seq<char>>)> {
    let p = trimmed(part);
    if p.len() == 0 {
        Seq::empty()
    } else {
        match name_email_of(p) {
            Some((Some(email), name)) => seq![(email, name)],
            _ => emails_in(p).map_values(|e: Seq<char>| (e, None::<Seq<char>>)),
        }
    }
}

/// The recipients that the parts name, in order.
pub open spec fn recipients_in_parts(parts: Seq<Seq<char>>) -> Seq<(Seq<char>, Option<Seq<char>>)>
    decreases parts.len(),
{
    if parts.len() == 0 {
        Seq::empty()
    } else {
        recipients_in_parts(parts.drop_last()) + recipients_in_part(parts.last())
    }
}

/// The recipients that a comma-separated list names, in order.
pub open spec fn recipients_of(s: Seq<char>) -> Seq<(Seq<char>, Option<Seq<char>>)> {
    recipients_in_parts(pieces(s, ','))
}

/// The views of a list of recipients.
pub open spec fn recipient_views(v: Seq<(String, Option<String>)>) -> Seq<(Seq<char>, Option<Seq<char>>)> {
    v.map_values(
        |r: (String, Option<String>)|
            (
                r.0@,
                opt_view(r.1),
            ),
    )
}

/// Each text of `v` comes before every later one.
pub open spec fn ascending(v: Seq<Seq<char>>) -> bool {
    forall|i: int, j: int| 0 <= i < j < v.len() ==> lex_less(v[i], v[j])
}

/// No text comes before itself.
pub proof fn lemma_lex_irreflexive(a: Seq<char>)
    ensures
        !lex_less(a, a),
    decreases a.len(),
{
    if a.len() > 0 {
        lemma_lex_irreflexive(a.drop_first());
    }
}

/// What comes before a text that comes before another comes before that
/// other.
pub proof fn lemma_lex_transitive(a: Seq<char>, b: Seq<char>, c: Seq<char>)
    requires
        lex_less(a, b),
        lex_less(b, c),
    ensures
        lex_less(a, c),
    decreases a.len(),
{
    if a.len() > 0 && b.len() > 0 && c.len() > 0 {
        if a[0] == b[0] && b[0] == c[0] {
            lemma_lex_transitive(a.drop_first(), b.drop_first(), c.drop_first());
        }
    }
}

/// Of two different texts one comes before the other.
pub proof fn lemma_lex_total(a: Seq<char>, b: Seq<char>)
    requires
        a != b,
    ensures
        lex_less(a, b) || lex_less(b, a),
    decreases a.len(),
{
    if a.len() > 0 && b.len() > 0 {
        if a[0] == b[0] {
            if a.drop_first() == b.drop_first() {
                assert(a =~= seq![a[0]] + a.drop_first());
                assert(b =~= seq![b[0]] + b.drop_first());
            }
            lemma_lex_total(a.drop_first(), b.drop_first());
        }
    } else if a.len() == 0 && b.len() == 0 {
        assert(a =~= b);
    }
}

/// Putting a text into an ascending list yields an ascending list that
/// holds that text and what the list held, and nothing else.
pub proof fn lemma_inserted(v: Seq<Seq<char>>, x: Seq<char>)
    requires
        ascending(v),
    ensures
        ascending(inserted(v, x)),
        forall|y: Seq<char>| #[trigger] inserted(v, x).contains(y) <==> (v.contains(y) || y == x),
    decreases v.len(),
{
    let r = inserted(v, x);
    if v.len() == 0 {
        assert(r[0] == x);
    } else if v[0] == x {
        assert(r == v);
    } else if lex_less(x, v[0]) {
        assert forall|i: int, j: int| 0 <= i < j < r.len() implies lex_less(r[i], r[j]) by {
            if i == 0 && j > 1 {
                lemma_lex_transitive(x, v[0], v[j - 1]);
            }
        }
        assert forall|y: Seq<char>| r.contains(y) <==> (v.contains(y) || y == x) by {
            if v.contains(y) {
                let k = choose|k: int| 0 <= k < v.len() && v[k] == y;
                assert(r[k + 1] == y);
            }
        }
    } else {
        let rest = v.drop_first();
        lemma_inserted(rest, x);
        lemma_lex_total(v[0], x);
        let tail = inserted(rest, x);
        assert forall|i: int, j: int| 0 <= i < j < r.len() implies lex_less(r[i], r[j]) by {
            if i == 0 {
                assert(tail.contains(tail[j - 1]));
            }
        }
        assert forall|y: Seq<char>| r.contains(y) <==> (v.contains(y) || y == x) by {
            if r.contains(y) {
                let k = choose|k: int| 0 <= k < r.len() && r[k] == y;
                if k > 0 {
                    assert(tail.contains(y));
                }
            }
            if v.contains(y) {
                let k = choose|k: int| 0 <= k < v.len() && v[k] == y;
                if k > 0 {
                    assert(rest[k - 1] == y);
                    assert(tail.contains(y));
                    let m = choose|m: int| 0 <= m < tail.len() && tail[m] == y;
                    assert(r[m + 1] == tail[m]);
                }
            }
            if y == x {
                let m = choose|m: int| 0 <= m < tail.len() && tail[m] == x;
                assert(r[m + 1] == tail[m]);
            }
        }
    }
}

/// `sorted_unique` lists exactly the given texts, in ascending order; so
/// none is listed twice.
pub proof fn law_sorted_unique(c: Seq<Seq<char>>)
    ensures
        ascending(sorted_unique(c)),
        forall|y: Seq<char>| #[trigger] sorted_unique(c).contains(y) <==> c.contains(y),
        forall|i: int, j: int|
            0 <= i < j < sorted_unique(c).len() ==> sorted_unique(c)[i] != sorted_unique(c)[j],
    decreases c.len(),
{
    let r = sorted_unique(c);
    if c.len() > 0 {
        let before = sorted_unique(c.drop_last());
        law_sorted_unique(c.drop_last());
        lemma_inserted(before, c.last());
        assert forall|y: Seq<char>| r.contains(y) <==> c.contains(y) by {
            if c.contains(y) {
                let k = choose|k: int| 0 <= k < c.len() && c[k] == y;
                if k < c.len() - 1 {
                    assert(c.drop_last()[k] == y);
                }
            }
        }
    }
    assert forall|i: int, j: int| 0 <= i < j < r.len() implies r[i] != r[j] by {
        lemma_lex_irreflexive(r[i]);
    }
}

/// Texts that share their first `k` characters compare as their rests do.
proof fn lemma_lex_less_after_prefix(a: Seq<char>, b: Seq<char>, k: int)
    requires
        0 <= k <= a.len(),
        k <= b.len(),
        a.take(k) == b.take(k),
    ensures
        lex_less(a, b) == lex_less(a.skip(k), b.skip(k)),
    decreases k,
{
    if k == 0 {
        assert(a.skip(0) =~= a);
        assert(b.skip(0) =~= b);
    } else {
        assert(b[0] == b.take(k)[0]);
        let a1 = a.drop_first();
        let b1 = b.drop_first();
        assert(a1.take(k - 1) =~= a.take(k).drop_first());
        assert(b1.take(k - 1) =~= b.take(k).drop_first());
        lemma_lex_less_after_prefix(a1, b1, k - 1);
        assert(a1.skip(k - 1) =~= a.skip(k));
        assert(b1.skip(k - 1) =~= b.skip(k));
    }
}

/// Whether `a` comes before `b` in the order of strings.
pub fn comes_before(a: &str, b: &str) -> (r: bool)
    ensures
        r == lex_less(a@, b@),
{
    let x = to_chars(a);
    let y = to_chars(b);
    let mut k: usize = 0;
    while k < x.len() && k < y.len()
        invariant
            k <= x.len(),
            k <= y.len(),
            x@ == a@,
            y@ == b@,
            x@.take(k as int) == y@.take(k as int),
        decreases x.len() - k,
    {
        if x[k] != y[k] {
            proof {
                lemma_lex_less_after_prefix(x@, y@, k as int);
            }
            return x[k] < y[k];
        }
        k += 1;
    }
    proof {
        lemma_lex_less_after_prefix(x@, y@, k as int);
    }
    k < y.len()
}

/// Puts `x` into the ascending list without repetition `v`, unless it is
/// already there.
pub fn insert_sorted(v: &mut Vec<String>, x: String)
    ensures
        views(final(v)@) == inserted(views(old(v)@), x@),
{
    let ghost all = views(v@);
    let mut k: usize = 0;
    assert(all.skip(0) =~= all);
    while k < v.len()
        invariant
            k <= v.len(),
            v@ == old(v)@,
            all == views(v@),
            inserted(all, x@) == all.take(k as int) + inserted(all.skip(k as int), x@),
        decreases v.len() - k,
    {
        proof {
            assert(all.skip(k as int).drop_first() =~= all.skip(k + 1));
        }
        if v[k].as_str().eq(x.as_str()) {
            return ;
        }
        if comes_before(x.as_str(), v[k].as_str()) {
            v.insert(k, x);
            return ;
        }
        assert(all.take(k as int) + (seq![all[k as int]] + inserted(all.skip(k + 1), x@))
            =~= all.take(k + 1) + inserted(all.skip(k + 1), x@));
        k += 1;
    }
    v.push(x);
}

/// Whether a character may stand in an e-mail address beside the `@`.
fn address_char(c: char) -> (r: bool)
    ensures
        r == is_address_char(c),
{
    ('a' <= c && c <= 'z') || ('A' <= c && c <= 'Z') || ('0' <= c && c <= '9') || c == '.' || c
        == '_' || c == '-'
}

/// Whether the characters `chars[from..to]` hold a dot.
fn holds_dot(chars: &Vec<char>, from: usize, to: usize) -> (r: bool)
    requires
        from <= to <= chars.len(),
    ensures
        r == chars@.subrange(from as int, to as int).contains('.'),
{
    let mut k: usize = from;
    let ghost part = chars@.subrange(from as int, to as int);
    while k < to
        invariant
            from <= k <= to <= chars.len(),
            part == chars@.subrange(from as int, to as int),
            forall|j: int| 0 <= j < k - from ==> part[j] != '.',
        decreases to - k,
    {
        if chars[k] == '.' {
            assert(part[k - from] == '.');
            return true;
        }
        k += 1;
    }
    false
}

/// The e-mail addresses in `s`, in ascending order, each once.
pub fn extract_emails(s: &str) -> (r: Vec<String>)
    ensures
        views(r@) == emails_in(s@),
{
    let chars = to_chars(s);
    let mut out: Vec<String> = Vec::new();
    let ghost found: Seq<Seq<char>> = Seq::empty();
    let mut i: usize = 0;
    while i < chars.len()
        invariant
            i <= chars.len(),
            chars@ == s@,
            views(out@) == sorted_unique(found),
            addresses_from(s@, 0) == found + addresses_from(s@, i as int),
        decreases chars.len() - i,
    {
        if chars[i] == '@' {
            let mut l: usize = i;
            while l > 0 && address_char(chars[l - 1])
                invariant
                    l <= i < chars.len(),
                    left_edge(chars@, i as int) == left_edge(chars@, l as int),
                decreases l,
            {
                l -= 1;
            }
            let mut r: usize = i + 1;
            while r < chars.len() && address_char(chars[r])
                invariant
                    i < r <= chars.len(),
                    right_edge(chars@, i + 1) == right_edge(chars@, r as int),
                decreases chars.len() - r,
            {
                r += 1;
            }
            if l < i && r > i + 1 {
                if holds_dot(&chars, l, r) {
                    let candidate = from_chars(&chars, l, r);
                    let address = lowercase(trim(candidate.as_str()));
                    proof {
                        let next = found.push(address@);
                        assert(next.drop_last() =~= found);
                        found = next;
                    }
                    insert_sorted(&mut out, address);
                }
                i = r;
                continue ;
            }
        }
        i += 1;
    }
    out
}

/// The views of an optional pair of optional texts.
pub open spec fn name_email_view(r: Option<(Option<String>, Option<String>)>) -> Option<
    (Option<Seq<char>>, Option<Seq<char>>),
> {
    match r {
        Some((a, b)) => Some(
            (
                opt_view(a),
                opt_view(b),
            ),
        ),
        None => None,
    }
}

/// The address and the name that a sender or recipient is written as.
pub fn parse_name_email(s: &str) -> (r: Option<(Option<String>, Option<String>)>)
    ensures
        name_email_view(r) == name_email_of(s@),
{
    let trimmed_text = trim(s);
    if trimmed_text.unicode_len() == 0 {
        return None;
    }
    match split_once(trimmed_text, '<') {
        Some((left, right)) => {
            let name = trim_matches(trim(left.as_str()), '"');
            let email = match split_once(right.as_str(), '>') {
                Some((e, _)) => lowercase(trim(e.as_str())),
                None => lowercase(trim(right.as_str())),
            };
            let name = if trim(name.as_str()).unicode_len() == 0 {
                None
            } else {
                Some(name)
            };
            Some((Some(email), name))
        },
        None => {
            let mut emails = extract_emails(trimmed_text);
            if emails.len() == 1 {
                let only = emails.pop().unwrap();
                Some((Some(only), None))
            } else {
                Some((None, None))
            }
        },
    }
}

/// The recipients that one comma-separated part names.
fn recipients_of_part(part: &str) -> (r: Vec<(String, Option<String>)>)
    ensures
        recipient_views(r@) == recipients_in_part(part@),
{
    let mut out: Vec<(String, Option<String>)> = Vec::new();
    let p = trim(part);
    if p.unicode_len() == 0 {
        return out;
    }
    match parse_name_email(p) {
        Some((Some(email), name)) => {
            out.push((email, name));
            out
        },
        _ => {
            let emails = extract_emails(p);
            let ghost all = views(emails@);
            for email in it: emails
                invariant
                    views(it.seq()) == all,
                    recipient_views(out@) == all.take(it.index() as int).map_values(
                        |e: Seq<char>| (e, None::<Seq<char>>),
                    ),
            {
                let ghost before = recipient_views(out@);
                out.push((email, None));
                assert(recipient_views(out@) =~= before.push((email@, None::<Seq<char>>)));
                assert(recipient_views(out@) =~= all.take(it.index() + 1).map_values(
                    |e: Seq<char>| (e, None::<Seq<char>>),
                ));
            }
            out
        },
    }
}

/// The recipients that a comma-separated list names, in order.
pub fn parse_many_recipients(s: &str) -> (r: Vec<(String, Option<String>)>)
    ensures
        recipient_views(r@) == recipients_of(s@),
{
    let parts = split(s, ',');
    let mut out: Vec<(String, Option<String>)> = Vec::new();
    let mut i: usize = 0;
    while i < parts.len()
        invariant
            i <= parts.len(),
            views(parts@) == pieces(s@, ','),
            recipient_views(out@) == recipients_in_parts(views(parts@).take(i as int)),
        decreases parts.len() - i,
    {
        proof {
            let all = views(parts@);
            assert(all.take(i + 1).drop_last() =~= all.take(i as int));
        }
        let mut found = recipients_of_part(parts[i].as_str());
        out.append(&mut found);
        i += 1;
    }
    assert(views(parts@).take(parts.len() as int) =~= views(parts@));
    out
}

/// What is read of an e-mail.
#[derive(Debug, Clone, PartialEq, Eq)]
pub struct ParsedEmail {
    pub message_id: Option<String>,
    pub date: Option<String>,
    pub subject: Option<String>,
    pub from_email: Option<String>,
    pub from_name: Option<String>,
    pub to_emails: Vec<(String, Option<String>)>,
    pub body: String,
}

/// Mathematical content of a [`ParsedEmail`].
pub struct ParsedEmailView {
    pub message_id: Option<Seq<char>>,
    pub date: Option<Seq<char>>,
    pub subject: Option<Seq<char>>,
    pub from_email: Option<Seq<char>>,
    pub from_name: Option<Seq<char>>,
    pub to_emails: Seq<(Seq<char>, Option<Seq<char>>)>,
    pub body: Seq<char>,
}

impl View for ParsedEmail {
    type V = ParsedEmailView;

    open spec fn view(&self) -> ParsedEmailView {
        ParsedEmailView {
            message_id: opt_view(self.message_id),
            date: opt_view(self.date),
            subject: opt_view(self.subject),
            from_email: opt_view(self.from_email),
            from_name: opt_view(self.from_name),
            to_emails: recipient_views(self.to_emails@),
            body: self.body@,
        }
    }
}

/// How far the reading of a message has come: whether the headers are
/// still being read, the headers read so far, and the body lines so far.
pub struct Scan {
    pub in_headers: bool,
    pub headers: Map<Seq<char>, Seq<char>>,
    pub body: Seq<Seq<char>>,
}

/// The reading after one more line. Among the headers a blank line ends
/// them; a line with a colon sets the header named before the colon, in
/// lower case, to what follows it, appended after a space to what the
/// header held; any other line is skipped. After the headers every line
/// belongs to the body.
pub open spec fn scan_line(st: Scan, line: Seq<char>) -> Scan {
    if st.in_headers {
        if trimmed(line).len() == 0 {
            Scan { in_headers: false, ..st }
        } else {
            match halves(line, ':') {
                Some((k, v)) => {
                    let key = lowercased(trimmed(k));
                    let value = if st.headers.contains_key(key) {
                        st.headers[key].push(' ') + trimmed(v)
                    } else {
                        trimmed(v)
                    };
                    Scan { headers: st.headers.insert(key, value), ..st }
                },
                None => st,
            }
        }
    } else {
        Scan { body: st.body.push(line), ..st }
    }
}

/// The reading after all of `lines`.
pub open spec fn scanned(lines: Seq<Seq<char>>) -> Scan
    decreases lines.len(),
{
    if lines.len() == 0 {
        Scan { in_headers: true, headers: Map::empty(), body: Seq::empty() }
    } else {
        scan_line(scanned(lines.drop_last()), lines.last())
    }
}

/// The header `key`, if it was read.
pub open spec fn header(headers: Map<Seq<char>, Seq<char>>, key: Seq<char>) -> Option<Seq<char>> {
    if headers.contains_key(key) {
        Some(headers[key])
    } else {
        None
    }
}

/// The recipients that the header `key` names.
pub open spec fn header_recipients(headers: Map<Seq<char>, Seq<char>>, key: Seq<char>) -> Seq<
    (Seq<char>, Option<Seq<char>>),
> {
    match header(headers, key) {
        Some(v) => recipients_of(v),
        None => Seq::empty(),
    }
}

/// What is read of the message `message`: the message id without its angle
/// brackets; date and subject as given; the sender's address from `From`
/// and name from `X-From`, else from `From`; the recipients of `To`, `Cc`
/// and `Bcc`, in that order; and the body, its lines joined by line feeds.
pub open spec fn parsed_email_of(message: Seq<char>) -> ParsedEmailView {
    let st = scanned(lines_of(message));
    let from = match header(st.headers, "from"@) {
        Some(f) => f,
        None => Seq::empty(),
    };
    let sender = match name_email_of(from) {
        Some(p) => p,
        None => (None, None),
    };
    ParsedEmailView {
        message_id: match header(st.headers, "message-id"@) {
            Some(m) => Some(without_edges(without_edges(trimmed(m), '<'), '>')),
            None => None,
        },
        date: header(st.headers, "date"@),
        subject: header(st.headers, "subject"@),
        from_email: sender.0,
        from_name: match header(st.headers, "x-from"@) {
            Some(x) => Some(x),
            None => sender.1,
        },
        to_emails: header_recipients(st.headers, "to"@) + header_recipients(st.headers, "cc"@)
            + header_recipients(st.headers, "bcc"@),
        body: joined_with(st.body, "\n"@),
    }
}

/// The headers of a map, each read by its characters.
pub open spec fn header_views(m: Map<Seq<char>, String>) -> Map<Seq<char>, Seq<char>> {
    m.map_values(|v: String| v@)
}

/// A copy of the header `key`, if it was read.
fn header_of(headers: &StringMap<String>, key: &str) -> (r: Option<String>)
    ensures
        opt_view(r) == header(header_views(headers@), key@),
{
    match headers.get(key) {
        Some(v) => Some(v.clone()),
        None => None,
    }
}

/// The recipients that the header `key` names.
fn recipients_of_header(headers: &StringMap<String>, key: &str) -> (r: Vec<
    (String, Option<String>),
>)
    ensures
        recipient_views(r@) == header_recipients(header_views(headers@), key@),
{
    match headers.get(key) {
        Some(v) => parse_many_recipients(v.as_str()),
        None => {
            let r: Vec<(String, Option<String>)> = Vec::new();
            r
        },
    }
}

/// Reads the lines of a message into its headers and the lines of its
/// body.
fn scan_lines(all_lines: &Vec<String>) -> (r: (StringMap<String>, Vec<String>))
    ensures
        header_views(r.0@) == scanned(views(all_lines@)).headers,
        views(r.1@) == scanned(views(all_lines@)).body,
{
    let mut headers: StringMap<String> = StringMap::new();
    let mut body_lines: Vec<String> = Vec::new();
    let mut in_headers = true;
    let mut i: usize = 0;
    assert(header_views(headers@) =~= Map::<Seq<char>, Seq<char>>::empty());
    assert(views(body_lines@) =~= Seq::<Seq<char>>::empty());
    while i < all_lines.len()
        invariant
            i <= all_lines.len(),
            scanned(views(all_lines@).take(i as int)) == (Scan {
                in_headers,
                headers: header_views(headers@),
                body: views(body_lines@),
            }),
        decreases all_lines.len() - i,
    {
        proof {
            let all = views(all_lines@);
            assert(all.take(i + 1).drop_last() =~= all.take(i as int));
        }
        let line = &all_lines[i];
        if in_headers {
            if trim(line.as_str()).unicode_len() == 0 {
                in_headers = false;
            } else {
                match split_once(line.as_str(), ':') {
                    Some((k, v)) => {
                        let key = lowercase(trim(k.as_str()));
                        let value = trim(v.as_str());
                        let ghost before = header_views(headers@);
                        let entry = match headers.remove(key.as_str()) {
                            Some(held) => {
                                let mut e = held;
                                push_char(&mut e, ' ');
                                e.append(value);
                                e
                            },
                            None => value.to_owned(),
                        };
                        headers.insert(key, entry);
                        assert(header_views(headers@) =~= before.insert(key@, entry@));
                    },
                    None => {},
                }
            }
        } else {
            let ghost before = views(body_lines@);
            body_lines.push(line.clone());
            assert(views(body_lines@) =~= before.push(line@));
        }
        i += 1;
    }
    assert(views(all_lines@).take(all_lines.len() as int) =~= views(all_lines@));
    (headers, body_lines)
}

/// Reads the headers and the body of a message.
pub fn parse_email_blob(message: &str) -> (r: ParsedEmail)
    ensures
        r@ == parsed_email_of(message@),
{
    let all_lines = lines(message);
    let (headers, body_lines) = scan_lines(&all_lines);
    let message_id = match headers.get("message-id") {
        Some(m) => {
            let inner = trim_matches(trim(m.as_str()), '<');
            Some(trim_matches(inner.as_str(), '>'))
        },
        None => None,
    };
    let from = match headers.get("from") {
        Some(f) => f.clone(),
        None => String::new(),
    };
    let (from_email, from_name) = match parse_name_email(from.as_str()) {
        Some(p) => p,
        None => (None, None),
    };
    let from_name = match header_of(&headers, "x-from") {
        Some(x) => Some(x),
        None => from_name,
    };
    let mut to_emails = recipients_of_header(&headers, "to");
    let mut cc = recipients_of_header(&headers, "cc");
    let mut bcc = recipients_of_header(&headers, "bcc");
    let ghost to_views = recipient_views(to_emails@);
    let ghost cc_views = recipient_views(cc@);
    let ghost bcc_views = recipient_views(bcc@);
    to_emails.append(&mut cc);
    to_emails.append(&mut bcc);
    assert(recipient_views(to_emails@) =~= to_views + cc_views + bcc_views);
    ParsedEmail {
        message_id,
        date: header_of(&headers, "date"),
        subject: header_of(&headers, "subject"),
        from_email,
        from_name,
        to_emails,
        body: join(&body_lines, "\n"),
    }
}

/// How an employee found in e-mail is merged into the graph.
#[derive(Debug, Clone, PartialEq, Eq)]
pub struct EmployeeMerge {
    pub employee_id: String,
    pub name: String,
    pub email: String,
}

/// Mathematical content of an [`EmployeeMerge`].
pub struct EmployeeMergeView {
    pub employee_id: Seq<char>,
    pub name: Seq<char>,
    pub email: Seq<char>,
}

impl View for EmployeeMerge {
    type V = EmployeeMergeView;

    open spec fn view(&self) -> EmployeeMergeView {
        EmployeeMergeView { employee_id: self.employee_id@, name: self.name@, email: self.email@ }
    }
}

/// How the employee with this address is merged: under the canonical id of
/// the address, with the display name if that is not blank and the trimmed
/// address otherwise, and with the address trimmed and in lower case.
pub open spec fn merge_of(email: Seq<char>, display_name: Option<Seq<char>>) -> EmployeeMergeView {
    EmployeeMergeView {
        employee_id: canonical_id(email),
        name: match display_name {
            Some(n) => if trimmed(n).len() > 0 {
                trimmed(n)
            } else {
                trimmed(email)
            },
            None => trimmed(email),
        },
        email: lowercased(trimmed(email)),
    }
}

/// How the employee with this address is merged into the graph.
pub fn employee_merge(email: &str, display_name: Option<&str>) -> (r: EmployeeMerge)
    ensures
        r@ == merge_of(
            email@,
            opt_str_view(display_name),
        ),
{
    let name = match display_name {
        Some(n) => {
            let t = trim(n);
            if t.unicode_len() > 0 {
                t.to_owned()
            } else {
                trim(email).to_owned()
            }
        },
        None => trim(email).to_owned(),
    };
    EmployeeMerge {
        employee_id: canonical_employee_id_from_email(email),
        name,
        email: lowercase(trim(email)),
    }
}

/// What the import of one message writes to the graph.
#[derive(Debug, Clone, PartialEq, Eq)]
pub struct EmailImport {
    /// The employees to merge: the sender, then the recipients.
    pub merges: Vec<EmployeeMerge>,
    pub message_id: String,
    pub file: String,
    pub subject: String,
    pub date: String,
    pub from_employee_id: String,
    pub to_employee_ids: Vec<String>,
    pub topic_ids: Vec<String>,
    pub body: String,
}

/// Mathematical content of an [`EmailImport`].
pub struct EmailImportView {
    pub merges: Seq<EmployeeMergeView>,
    pub message_id: Seq<char>,
    pub file: Seq<char>,
    pub subject: Seq<char>,
    pub date: Seq<char>,
    pub from_employee_id: Seq<char>,
    pub to_employee_ids: Seq<Seq<char>>,
    pub topic_ids: Seq<Seq<char>>,
    pub body: Seq<char>,
}

/// The views of a list of merges.
pub open spec fn merge_views(v: Seq<EmployeeMerge>) -> Seq<EmployeeMergeView> {
    v.map_values(|m: EmployeeMerge| m@)
}

impl View for EmailImport {
    type V = EmailImportView;

    open spec fn view(&self) -> EmailImportView {
        EmailImportView {
            merges: merge_views(self.merges@),
            message_id: self.message_id@,
            file: self.file@,
            subject: self.subject@,
            date: self.date@,
            from_employee_id: self.from_employee_id@,
            to_employee_ids: views(self.to_employee_ids@),
            topic_ids: views(self.topic_ids@),
            body: self.body@,
        }
    }
}

/// `o`, or the empty text where `o` is `None`.
pub open spec fn or_empty(o: Option<Seq<char>>) -> Seq<char> {
    match o {
        Some(s) => s,
        None => Seq::empty(),
    }
}

/// What the import of the message `message` from the file `file` writes:
/// nothing for a blank message; else the merges of the sender, if it has an
/// address, and of every recipient; the message under its message id, or
/// under the file's name where it has none; the sender's canonical id, or
/// `employee_email_unknown`; the recipients' canonical ids; and the topics
/// of the subject.
pub open spec fn import_of(file: Seq<char>, message: Seq<char>) -> Option<EmailImportView> {
    if trimmed(message).len() == 0 {
        None
    } else {
        let parsed = parsed_email_of(message);
        let sender: Seq<EmployeeMergeView> = match parsed.from_email {
            Some(e) => seq![merge_of(e, parsed.from_name)],
            None => Seq::empty(),
        };
        Some(
            EmailImportView {
                merges: sender + parsed.to_emails.map_values(
                    |r: (Seq<char>, Option<Seq<char>>)| merge_of(r.0, r.1),
                ),
                message_id: match parsed.message_id {
                    Some(m) => m,
                    None => file,
                },
                file,
                subject: or_empty(parsed.subject),
                date: or_empty(parsed.date),
                from_employee_id: match parsed.from_email {
                    Some(e) => canonical_id(e),
                    None => "employee_email_unknown"@,
                },
                to_employee_ids: parsed.to_emails.map_values(
                    |r: (Seq<char>, Option<Seq<char>>)| canonical_id(r.0),
                ),
                topic_ids: topics_of(parsed.subject),
                body: parsed.body,
            },
        )
    }
}

/// A borrowed view of an optional string.
fn as_part(o: &Option<String>) -> (r: Option<&str>)
    ensures
        opt_str_view(r) == opt_view(*o),
{
    match o {
        Some(s) => Some(s.as_str()),
        None => None,
    }
}

/// What the import of the message `message` from the file `file` writes to
/// the graph; nothing for a blank message.
pub fn plan_import(file: &str, message: &str) -> (r: Option<EmailImport>)
    ensures
        (match r {
            Some(i) => Some(i@),
            None => None,
        }) == import_of(file@, message@),
{
    if trim(message).unicode_len() == 0 {
        return None;
    }
    let parsed = parse_email_blob(message);
    let mut merges: Vec<EmployeeMerge> = Vec::new();
    let from_employee_id = match &parsed.from_email {
        Some(e) => {
            merges.push(employee_merge(e.as_str(), as_part(&parsed.from_name)));
            canonical_employee_id_from_email(e.as_str())
        },
        None => "employee_email_unknown".to_owned(),
    };
    let ghost sender = merge_views(merges@);
    let mut to_employee_ids: Vec<String> = Vec::new();
    let mut i: usize = 0;
    let ghost recipients = recipient_views(parsed.to_emails@);
    assert(views(to_employee_ids@) =~= recipients.take(0).map_values(
        |r: (Seq<char>, Option<Seq<char>>)| canonical_id(r.0),
    ));
    assert(merge_views(merges@) =~= sender + recipients.take(0).map_values(
        |r: (Seq<char>, Option<Seq<char>>)| merge_of(r.0, r.1),
    ));
    while i < parsed.to_emails.len()
        invariant
            i <= parsed.to_emails.len(),
            recipients == recipient_views(parsed.to_emails@),
            views(to_employee_ids@) == recipients.take(i as int).map_values(
                |r: (Seq<char>, Option<Seq<char>>)| canonical_id(r.0),
            ),
            merge_views(merges@) == sender + recipients.take(i as int).map_values(
                |r: (Seq<char>, Option<Seq<char>>)| merge_of(r.0, r.1),
            ),
        decreases parsed.to_emails.len() - i,
    {
        let email = &parsed.to_emails[i].0;
        let name = as_part(&parsed.to_emails[i].1);
        let merge = employee_merge(email.as_str(), name);
        let id = canonical_employee_id_from_email(email.as_str());
        let ghost ids_before = views(to_employee_ids@);
        let ghost merges_before = merge_views(merges@);
        merges.push(merge);
        to_employee_ids.push(id);
        proof {
            assert(merge_views(merges@) =~= merges_before.push(merge@));
            assert(views(to_employee_ids@) =~= ids_before.push(id@));
            assert(views(to_employee_ids@) =~= recipients.take(i + 1).map_values(
                |r: (Seq<char>, Option<Seq<char>>)| canonical_id(r.0),
            ));
            assert(merge_views(merges@) =~= sender + recipients.take(i + 1).map_values(
                |r: (Seq<char>, Option<Seq<char>>)| merge_of(r.0, r.1),
            ));
        }
        i += 1;
    }
    let topic_ids = derive_topics(&parsed.subject);
    let message_id = match &parsed.message_id {
        Some(m) => m.clone(),
        None => file.to_owned(),
    };
    let subject = match &parsed.subject {
        Some(s) => s.clone(),
        None => String::new(),
    };
    let date = match &parsed.date {
        Some(d) => d.clone(),
        None => String::new(),
    };
    let import = EmailImport {
        merges,
        message_id,
        file: file.to_owned(),
        subject,
        date,
        from_employee_id,
        to_employee_ids,
        topic_ids,
        body: parsed.body,
    };
    proof {
        let want = import_of(file@, message@).unwrap();
        assert(import@.merges == want.merges);
        assert(import@.to_employee_ids == want.to_employee_ids);
    }
    Some(import)
}

} // verus!
