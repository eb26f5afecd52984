//! Attribute lists of playlist tags (`KEY=VALUE,KEY="quoted value"`).

use vstd::prelude::*;

use crate::text::{chars_of, opt_chars, string_of};

verus! {

/// A set of tag attributes: each key maps to one value; a later value for a
/// key replaces the earlier one.
#[derive(Debug, Clone)]
pub struct Attributes {
    entries: Vec<(String, String)>,
}

/// The map that a list of (key, value) insertions leaves behind.
pub open spec fn entries_map(e: Seq<(String, String)>) -> Map<Seq<char>, Seq<char>>
    decreases e.len(),
{
    if e.len() == 0 {
        Map::empty()
    } else {
        entries_map(e.drop_last()).insert(e.last().0@, e.last().1@)
    }
}

/// A key's value is the one of its last insertion; a key never inserted is absent.
proof fn lemma_entries_map_lookup(e: Seq<(String, String)>, k: Seq<char>, i: int)
    requires
        -1 <= i < e.len(),
        forall|j: int| i < j < e.len() ==> (#[trigger] e[j]).0@ != k,
        i >= 0 ==> e[i].0@ == k,
    ensures
        i >= 0 ==> entries_map(e).contains_key(k) && entries_map(e)[k] == e[i].1@,
        i < 0 ==> !entries_map(e).contains_key(k),
    decreases e.len(),
{
    if e.len() > 0 {
        if i == e.len() - 1 {
        } else {
            let d = e.drop_last();
            assert forall|j: int| i < j < d.len() implies (#[trigger] d[j]).0@ != k by {
                assert(d[j] == e[j]);
            }
            if i >= 0 {
                assert(d[i] == e[i]);
            }
            lemma_entries_map_lookup(d, k, i);
            assert(e[e.len() - 1].0@ != k);
        }
    }
}

impl View for Attributes {
    type V = Map<Seq<char>, Seq<char>>;

    closed spec fn view(&self) -> Map<Seq<char>, Seq<char>> {
        entries_map(self.entries@)
    }
}

impl Attributes {
    /// An empty attribute set.
    pub fn new() -> (r: Attributes)
        ensures
            r@ == Map::<Seq<char>, Seq<char>>::empty(),
    {
        Attributes { entries: Vec::new() }
    }

    /// Sets `key` to `value`, replacing any earlier value.
    pub fn insert(&mut self, key: String, value: String)
        ensures
            final(self)@ == old(self)@.insert(key@, value@),
    {
        let ghost before = self.entries@;
        self.entries.push((key, value));
        proof {
            assert(self.entries@.drop_last() == before);
        }
    }

    /// The value of `key`, if it is set.
    pub fn get(&self, key: &str) -> (r: Option<&String>)
        ensures
            r matches Some(v) ==> self@.contains_key(key@) && self@[key@] == v@,
            r is None ==> !self@.contains_key(key@),
    {
        let k = chars_of(key);
        let mut i: usize = self.entries.len();
        while i > 0
            invariant
                i <= self.entries.len(),
                k@ == key@,
                forall|j: int| i <= j < self.entries@.len() ==> (#[trigger] self.entries@[j]).0@
                    != key@,
            decreases i,
        {
            let e = &self.entries[i - 1];
            let ec = chars_of(e.0.as_str());
            if same_chars(&ec, &k) {
                proof {
                    lemma_entries_map_lookup(self.entries@, key@, i - 1);
                }
                return Some(&e.1);
            }
            i = i - 1;
        }
        proof {
            lemma_entries_map_lookup(self.entries@, key@, -1);
        }
        None
    }
}

/// Whether two character vectors hold the same characters.
pub fn same_chars(a: &Vec<char>, b: &Vec<char>) -> (r: bool)
    ensures
        r == (a@ == b@),
{
    if a.len() != b.len() {
        return false;
    }
    let mut i: usize = 0;
    while i < a.len()
        invariant
            a.len() == b.len(),
            i <= a.len(),
            forall|j: int| 0 <= j < i ==> a@[j] == b@[j],
        decreases a.len() - i,
    {
        if a[i] != b[i] {
            return false;
        }
        i = i + 1;
    }
    assert(a@ == b@);
    true
}

/// The character that an escape `\c` inside quotes stands for.
pub open spec fn escaped(c: char) -> Option<char> {
    if c == '"' {
        Some('"')
    } else if c == '\\' {
        Some('\\')
    } else if c == 'n' {
        Some('\n')
    } else if c == 'r' {
        Some('\r')
    } else if c == 't' {
        Some('\t')
    } else {
        None
    }
}

/// The attribute scanner from position `i` on.
///
/// `key` is the key read so far (set by `=`), `value` the unquoted text since
/// the last `=` or `,`, `quote` the text of a quoted value being read, and
/// `attrs` the attributes already set. A `,` without a key leaves `value`
/// as it is; a quoted value needs a key before it (else "invalid attribute4");
/// an escape needs a following character (else "invalid attribute2") among
/// `" \ n r t` (else "invalid attribute3"); an unterminated quote ends at the
/// end of the line.
pub open spec fn scan_attributes(
    line: Seq<char>,
    i: int,
    key: Option<Seq<char>>,
    value: Seq<char>,
    quote: Option<Seq<char>>,
    attrs: Map<Seq<char>, Seq<char>>,
) -> Result<Map<Seq<char>, Seq<char>>, Seq<char>>
    decreases line.len() - i,
{
    if i < 0 || i >= line.len() {
        match quote {
            Some(q) => match key {
                Some(k) => Ok(attrs.insert(k, q)),
                None => Err("invalid attribute4"@),
            },
            None => match key {
                Some(k) => Ok(attrs.insert(k, value)),
                None => Ok(attrs),
            },
        }
    } else {
        let c = line[i];
        match quote {
            Some(q) => {
                if c == '"' {
                    match key {
                        Some(k) => scan_attributes(line, i + 1, None, value, None, attrs.insert(k, q)),
                        None => Err("invalid attribute4"@),
                    }
                } else if c == '\\' {
                    if i + 1 >= line.len() {
                        Err("invalid attribute2"@)
                    } else {
                        match escaped(line[i + 1]) {
                            Some(e) => scan_attributes(line, i + 2, key, value, Some(q.push(e)), attrs),
                            None => Err("invalid attribute3"@),
                        }
                    }
                } else {
                    scan_attributes(line, i + 1, key, value, Some(q.push(c)), attrs)
                }
            },
            None => {
                if c == '=' {
                    scan_attributes(line, i + 1, Some(value), Seq::empty(), None, attrs)
                } else if c == ',' {
                    match key {
                        Some(k) => scan_attributes(
                            line,
                            i + 1,
                            None,
                            Seq::empty(),
                            None,
                            attrs.insert(k, value),
                        ),
                        None => scan_attributes(line, i + 1, None, value, None, attrs),
                    }
                } else if c == '"' {
                    scan_attributes(line, i + 1, key, value, Some(Seq::empty()), attrs)
                } else {
                    scan_attributes(line, i + 1, key, value.push(c), None, attrs)
                }
            },
        }
    }
}

/// The attributes written in `line`, or the error message.
pub open spec fn attributes_of(line: Seq<char>) -> Result<Map<Seq<char>, Seq<char>>, Seq<char>> {
    scan_attributes(line, 0, None, Seq::empty(), None, Map::empty())
}

/// Whether a text holds none of the characters that structure an attribute
/// list (`=`, `,`, `"`).
pub open spec fn plain_text(t: Seq<char>) -> bool {
    forall|j: int| 0 <= j < t.len() ==> t[j] != '=' && t[j] != ',' && t[j] != '"'
}

/// The text `k=v`.
pub open spec fn pair_text(k: Seq<char>, v: Seq<char>) -> Seq<char> {
    k + seq!['='] + v
}

/// The text of a list of pairs: `k1=v1,k2=v2,...` (empty for no pairs).
pub open spec fn pairs_text(ps: Seq<(Seq<char>, Seq<char>)>) -> Seq<char>
    decreases ps.len(),
{
    if ps.len() == 0 {
        Seq::empty()
    } else if ps.len() == 1 {
        pair_text(ps[0].0, ps[0].1)
    } else {
        pair_text(ps[0].0, ps[0].1) + seq![','] + pairs_text(ps.drop_first())
    }
}

/// The map that setting the pairs in order onto `m` gives.
pub open spec fn set_pairs(ps: Seq<(Seq<char>, Seq<char>)>, m: Map<Seq<char>, Seq<char>>) -> Map<
    Seq<char>,
    Seq<char>,
>
    decreases ps.len(),
{
    if ps.len() == 0 {
        m
    } else {
        set_pairs(ps.drop_first(), m.insert(ps[0].0, ps[0].1))
    }
}

/// Scanning plain text outside quotes adds it to the value being read.
proof fn lemma_scan_plain(
    line: Seq<char>,
    i: int,
    t: Seq<char>,
    key: Option<Seq<char>>,
    value: Seq<char>,
    attrs: Map<Seq<char>, Seq<char>>,
)
    requires
        0 <= i,
        i + t.len() <= line.len(),
        forall|j: int| 0 <= j < t.len() ==> line[i + j] == t[j],
        plain_text(t),
    ensures
        scan_attributes(line, i, key, value, None, attrs) == scan_attributes(
            line,
            i + t.len(),
            key,
            value + t,
            None,
            attrs,
        ),
    decreases t.len(),
{
    if t.len() == 0 {
        assert(value + t =~= value);
    } else {
        let c = t[0];
        assert(line[i] == c);
        let rest = t.drop_first();
        assert forall|j: int| 0 <= j < rest.len() implies line[(i + 1) + j] == rest[j] by {
            assert(line[i + (j + 1)] == t[j + 1]);
        }
        lemma_scan_plain(line, i + 1, rest, key, value.push(c), attrs);
        assert(value.push(c) + rest =~= value + t);
    }
}

/// Scanning the text of a non-empty pair list sets its pairs in order.
proof fn lemma_scan_pairs(
    line: Seq<char>,
    i: int,
    ps: Seq<(Seq<char>, Seq<char>)>,
    m: Map<Seq<char>, Seq<char>>,
)
    requires
        ps.len() >= 1,
        forall|j: int| 0 <= j < ps.len() ==> plain_text((#[trigger] ps[j]).0) && plain_text(ps[j].1),
        0 <= i,
        i + pairs_text(ps).len() == line.len(),
        forall|j: int| 0 <= j < pairs_text(ps).len() ==> line[i + j] == pairs_text(ps)[j],
    ensures
        scan_attributes(line, i, None, Seq::empty(), None, m) == Ok::<_, Seq<char>>(set_pairs(ps, m)),
    decreases ps.len(),
{
    let k = ps[0].0;
    let v = ps[0].1;
    let text = pairs_text(ps);
    let head = pair_text(k, v);
    assert(plain_text(k) && plain_text(v));
    let tail = if ps.len() == 1 {
        Seq::<char>::empty()
    } else {
        seq![','] + pairs_text(ps.drop_first())
    };
    assert(text =~= head + tail);
    assert forall|j: int| 0 <= j < k.len() implies line[i + j] == k[j] by {
        assert(text[j] == k[j]);
    }
    lemma_scan_plain(line, i, k, None, Seq::empty(), m);
    assert(Seq::<char>::empty() + k =~= k);
    let e = i + k.len();
    assert(line[e] == text[k.len() as int]);
    assert(text[k.len() as int] == '=');
    let vs = e + 1;
    assert forall|j: int| 0 <= j < v.len() implies line[vs + j] == v[j] by {
        assert(text[k.len() + 1 + j] == v[j]);
    }
    lemma_scan_plain(line, vs, v, Some(k), Seq::empty(), m);
    assert(Seq::<char>::empty() + v =~= v);
    let p = vs + v.len();
    if ps.len() == 1 {
        assert(p == line.len());
        assert(set_pairs(ps.drop_first(), m.insert(k, v)) == m.insert(k, v));
    } else {
        let rest = ps.drop_first();
        assert(line[p] == text[head.len() as int]);
        assert(text[head.len() as int] == ',');
        assert forall|j: int| 0 <= j < rest.len() implies plain_text((#[trigger] rest[j]).0)
            && plain_text(rest[j].1) by {
            assert(rest[j] == ps[j + 1]);
        }
        assert forall|j: int| 0 <= j < pairs_text(rest).len() implies line[(p + 1) + j]
            == pairs_text(rest)[j] by {
            assert(text[head.len() + 1 + j] == pairs_text(rest)[j]);
        }
        lemma_scan_pairs(line, p + 1, rest, m.insert(k, v));
    }
}

/// Setting pairs in order: the last one is set last.
proof fn lemma_set_pairs_last(ps: Seq<(Seq<char>, Seq<char>)>, m: Map<Seq<char>, Seq<char>>)
    requires
        ps.len() > 0,
    ensures
        set_pairs(ps, m) == set_pairs(ps.drop_last(), m).insert(ps.last().0, ps.last().1),
    decreases ps.len(),
{
    let front = ps.drop_last();
    if ps.len() > 1 {
        let d = ps.drop_first();
        let m2 = m.insert(ps[0].0, ps[0].1);
        lemma_set_pairs_last(d, m2);
        assert(d.drop_last() =~= front.drop_first());
        assert(d.last() == ps.last());
        assert(front.len() > 0 && front[0] == ps[0]);
        assert(set_pairs(front, m) == set_pairs(front.drop_first(), m2));
    } else {
        assert(front.len() == 0);
        assert(ps.drop_first().len() == 0);
        assert(set_pairs(ps, m) == set_pairs(ps.drop_first(), m.insert(ps[0].0, ps[0].1)));
        assert(ps.last() == ps[0]);
    }
}

/// Setting pairs onto an empty map: a key is present exactly when some pair has it.
proof fn lemma_set_pairs_contains(ps: Seq<(Seq<char>, Seq<char>)>, k: Seq<char>)
    ensures
        set_pairs(ps, Map::empty()).contains_key(k) <==> exists|i: int|
            0 <= i < ps.len() && (#[trigger] ps[i]).0 == k,
    decreases ps.len(),
{
    if ps.len() > 0 {
        let d = ps.drop_last();
        lemma_set_pairs_last(ps, Map::empty());
        lemma_set_pairs_contains(d, k);
        let last = ps.len() - 1;
        if ps[last].0 == k {
        } else {
            if exists|i: int| 0 <= i < d.len() && (#[trigger] d[i]).0 == k {
                let i = choose|i: int| 0 <= i < d.len() && (#[trigger] d[i]).0 == k;
                assert(ps[i] == d[i]);
            }
            if exists|i: int| 0 <= i < ps.len() && (#[trigger] ps[i]).0 == k {
                let i = choose|i: int| 0 <= i < ps.len() && (#[trigger] ps[i]).0 == k;
                assert(i != last);
                assert(d[i] == ps[i]);
            }
        }
    }
}

/// Setting pairs onto an empty map: a key holds the value of its last pair.
proof fn lemma_set_pairs_value(ps: Seq<(Seq<char>, Seq<char>)>, i: int)
    requires
        0 <= i < ps.len(),
        forall|j: int| i < j < ps.len() ==> ps[j].0 != ps[i].0,
    ensures
        set_pairs(ps, Map::empty())[ps[i].0] == ps[i].1,
    decreases ps.len(),
{
    let d = ps.drop_last();
    lemma_set_pairs_last(ps, Map::empty());
    if i < ps.len() - 1 {
        assert(ps[ps.len() - 1].0 != ps[i].0);
        assert(d[i] == ps[i]);
        assert forall|j: int| i < j < d.len() implies d[j].0 != d[i].0 by {
            assert(d[j] == ps[j]);
        }
        lemma_set_pairs_value(d, i);
    }
}

/// An attribute list written as `k1=v1,k2=v2,...` (keys and values holding
/// no `=`, `,` or `"`) parses without error; a key is present exactly when
/// some pair has it, and its value is that of the last pair with the key.
pub proof fn law_attributes_last_pair_wins(ps: Seq<(Seq<char>, Seq<char>)>)
    requires
        forall|j: int| 0 <= j < ps.len() ==> plain_text((#[trigger] ps[j]).0) && plain_text(ps[j].1),
    ensures
        attributes_of(pairs_text(ps)) == Ok::<_, Seq<char>>(set_pairs(ps, Map::empty())),
        forall|k: Seq<char>|
            set_pairs(ps, Map::empty()).contains_key(k) <==> exists|i: int|
                0 <= i < ps.len() && (#[trigger] ps[i]).0 == k,
        forall|i: int|
            0 <= i < ps.len() && (forall|j: int| i < j < ps.len() ==> ps[j].0 != ps[i].0)
                ==> set_pairs(ps, Map::empty())[(#[trigger] ps[i]).0] == ps[i].1,
{
    if ps.len() > 0 {
        lemma_scan_pairs(pairs_text(ps), 0, ps, Map::empty());
    }
    assert forall|k: Seq<char>| set_pairs(ps, Map::empty()).contains_key(k) <==> exists|i: int|
        0 <= i < ps.len() && (#[trigger] ps[i]).0 == k by {
        lemma_set_pairs_contains(ps, k);
    }
    assert forall|i: int|
        0 <= i < ps.len() && (forall|j: int| i < j < ps.len() ==> ps[j].0 != ps[i].0) implies set_pairs(
        ps,
        Map::empty(),
    )[(#[trigger] ps[i]).0] == ps[i].1 by {
        lemma_set_pairs_value(ps, i);
    }
}

/// Parses an attribute list such as `URI="a.mp4",INDEPENDENT=YES`.
pub fn parse_attributes(line: &Vec<char>) -> (r: Result<Attributes, String>)
    ensures
        r matches Ok(a) ==> attributes_of(line@) == Ok::<_, Seq<char>>(a@),
        r matches Err(e) ==> attributes_of(line@) == Err::<Map<Seq<char>, Seq<char>>, _>(e@),
{
    let mut attrs = Attributes::new();
    let mut key: Option<Vec<char>> = None;
    let mut value: Vec<char> = Vec::new();
    let mut quote: Option<Vec<char>> = None;
    let mut i: usize = 0;
    let n = line.len();
    while i < n
        invariant
            i <= n == line.len(),
            scan_attributes(line@, i as int, opt_chars(key), value@, opt_chars(quote), attrs@)
                == attributes_of(line@),
        decreases n - i,
    {
        let c = line[i];
        match quote {
            Some(q) => {
                if c == '"' {
                    match key {
                        Some(k) => {
                            attrs.insert(string_of(&k), string_of(&q));
                            key = None;
                            quote = None;
                            i = i + 1;
                        },
                        None => {
                            return Err("invalid attribute4".to_owned());
                        },
                    }
                } else if c == '\\' {
                    if i + 1 >= n {
                        return Err("invalid attribute2".to_owned());
                    }
                    let e = line[i + 1];
                    let esc = if e == '"' {
                        '"'
                    } else if e == '\\' {
                        '\\'
                    } else if e == 'n' {
                        '\n'
                    } else if e == 'r' {
                        '\r'
                    } else if e == 't' {
                        '\t'
                    } else {
                        return Err("invalid attribute3".to_owned());
                    };
                    let mut q2 = q;
                    q2.push(esc);
                    quote = Some(q2);
                    i = i + 2;
                } else {
                    let mut q2 = q;
                    q2.push(c);
                    quote = Some(q2);
                    i = i + 1;
                }
            },
            None => {
                if c == '=' {
                    key = Some(value);
                    value = Vec::new();
                } else if c == ',' {
                    match key {
                        Some(k) => {
                            attrs.insert(string_of(&k), string_of(&value));
                            key = None;
                            value = Vec::new();
                        },
                        None => {},
                    }
                } else if c == '"' {
                    quote = Some(Vec::new());
                } else {
                    value.push(c);
                }
                i = i + 1;
            },
        }
    }
    match quote {
        Some(q) => match key {
            Some(k) => {
                attrs.insert(string_of(&k), string_of(&q));
            },
            None => {
                return Err("invalid attribute4".to_owned());
            },
        },
        None => match key {
            Some(k) => {
                attrs.insert(string_of(&k), string_of(&value));
            },
            None => {},
        },
    }
    Ok(attrs)
}

} // verus!
