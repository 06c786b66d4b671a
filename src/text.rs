//! Character-level helpers shared by the selector parser and the serializers.
use vstd::prelude::*;

verus! {

/// White space as `char::is_whitespace` defines it (the Unicode `White_Space` set).
pub open spec fn is_white(c: char) -> bool {
    ||| c == ' '
    ||| ('\t' <= c && c <= '\r')
    ||| c == '\u{85}'
    ||| c == '\u{a0}'
    ||| c == '\u{1680}'
    ||| ('\u{2000}' <= c && c <= '\u{200a}')
    ||| c == '\u{2028}'
    ||| c == '\u{2029}'
    ||| c == '\u{202f}'
    ||| c == '\u{205f}'
    ||| c == '\u{3000}'
}

/// `s` without its leading white space.
pub open spec fn trim_start(s: Seq<char>) -> Seq<char>
    decreases s.len(),
{
    if s.len() > 0 && is_white(s[0]) {
        trim_start(s.drop_first())
    } else {
        s
    }
}

/// `s` without its trailing white space.
pub open spec fn trim_end(s: Seq<char>) -> Seq<char>
    decreases s.len(),
{
    if s.len() > 0 && is_white(s.last()) {
        trim_end(s.drop_last())
    } else {
        s
    }
}

/// `s` without white space at either end, as `str::trim` gives it.
pub open spec fn trimmed(s: Seq<char>) -> Seq<char> {
    trim_end(trim_start(s))
}

/// The items of `items` with `sep` between each two neighbours.
pub open spec fn joined(items: Seq<Seq<char>>, sep: Seq<char>) -> Seq<char>
    decreases items.len(),
{
    if items.len() == 0 {
        Seq::empty()
    } else if items.len() == 1 {
        items[0]
    } else {
        joined(items.drop_last(), sep) + sep + items.last()
    }
}

/// The views of a sequence of strings.
pub open spec fn views_of(v: Seq<String>) -> Seq<Seq<char>> {
    v.map_values(|s: String| s@)
}

/// Index of the first entry at or after `i` whose key is `key`;
/// `entries.len()` when there is none.
pub open spec fn key_position<V>(entries: Seq<(Seq<char>, V)>, key: Seq<char>, i: int) -> int
    decreases entries.len() - i,
{
    if i < 0 || i >= entries.len() {
        entries.len() as int
    } else if entries[i].0 == key {
        i
    } else {
        key_position(entries, key, i + 1)
    }
}

/// `entries` after setting `key` to `value`: in the place of the first entry
/// with that key, else as a new last entry.
pub open spec fn upserted<V>(entries: Seq<(Seq<char>, V)>, key: Seq<char>, value: V) -> Seq<
    (Seq<char>, V),
> {
    let p = key_position(entries, key, 0);
    if p < entries.len() {
        entries.update(p, (key, value))
    } else {
        entries.push((key, value))
    }
}

/// No key occurs twice among `entries`.
pub open spec fn keys_unique<V>(entries: Seq<(Seq<char>, V)>) -> bool {
    forall|i: int, j: int|
        0 <= i < entries.len() && 0 <= j < entries.len() && i != j ==> entries[i].0
            != entries[j].0
}

/// Setting a key keeps the keys unique.
pub proof fn lemma_upserted_keys_unique<V>(entries: Seq<(Seq<char>, V)>, key: Seq<char>, value: V)
    requires
        keys_unique(entries),
    ensures
        keys_unique(upserted(entries, key, value)),
        forall|i: int|
            0 <= i < upserted(entries, key, value).len() ==> #[trigger] upserted(
                entries,
                key,
                value,
            )[i] == (key, value) || entries.contains(upserted(entries, key, value)[i]),
{
    lemma_key_position(entries, key, 0);
    let r = upserted(entries, key, value);
    let p = key_position(entries, key, 0);
    assert forall|a: int, b: int| 0 <= a < r.len() && 0 <= b < r.len() && a != b implies r[a].0
        != r[b].0 by {
        if p == entries.len() {
            if a < entries.len() && b < entries.len() {
                assert(r[a] == entries[a] && r[b] == entries[b]);
            }
        } else {
            assert(r[a].0 == entries[a].0 && r[b].0 == entries[b].0);
        }
    }
    assert forall|i: int| 0 <= i < r.len() implies #[trigger] r[i] == (key, value) || entries.contains(
        r[i],
    ) by {
        if r[i] != (key, value) {
            assert(r[i] == entries[i]);
        }
    }
}

pub proof fn lemma_key_position<V>(entries: Seq<(Seq<char>, V)>, key: Seq<char>, i: int)
    requires
        0 <= i <= entries.len(),
    ensures
        i <= key_position(entries, key, i) <= entries.len(),
        key_position(entries, key, i) < entries.len() ==> entries[key_position(
            entries,
            key,
            i,
        )].0 == key,
        forall|j: int| i <= j < key_position(entries, key, i) ==> entries[j].0 != key,
    decreases entries.len() - i,
{
    if i < entries.len() && entries[i].0 != key {
        lemma_key_position(entries, key, i + 1);
    }
}

pub fn is_white_char(c: char) -> (r: bool)
    ensures
        r == is_white(c),
{
    c == ' ' || ('\t' <= c && c <= '\r') || c == '\u{85}' || c == '\u{a0}' || c == '\u{1680}'
        || ('\u{2000}' <= c && c <= '\u{200a}') || c == '\u{2028}' || c == '\u{2029}'
        || c == '\u{202f}' || c == '\u{205f}' || c == '\u{3000}'
}

/// Whether two strings hold the same characters.
pub fn same_text(a: &str, b: &str) -> (r: bool)
    ensures
        r == (a@ == b@),
{
    let n = a.unicode_len();
    if n != b.unicode_len() {
        return false;
    }
    let mut i: usize = 0;
    while i < n
        invariant
            n == a@.len(),
            n == b@.len(),
            i <= n,
            a@.subrange(0, i as int) == b@.subrange(0, i as int),
        decreases n - i,
    {
        if a.get_char(i) != b.get_char(i) {
            return false;
        }
        assert(a@.subrange(0, i + 1) == a@.subrange(0, i as int).push(a@[i as int]));
        assert(b@.subrange(0, i + 1) == b@.subrange(0, i as int).push(b@[i as int]));
        i = i + 1;
    }
    assert(a@ == a@.subrange(0, n as int));
    assert(b@ == b@.subrange(0, n as int));
    true
}

/// The characters of `s`, one by one.
pub fn chars_of(s: &str) -> (r: Vec<char>)
    ensures
        r@ == s@,
{
    let n = s.unicode_len();
    let mut r: Vec<char> = Vec::new();
    let mut i: usize = 0;
    while i < n
        invariant
            n == s@.len(),
            i <= n,
            r@ == s@.subrange(0, i as int),
        decreases n - i,
    {
        r.push(s.get_char(i));
        assert(s@.subrange(0, i + 1) == s@.subrange(0, i as int).push(s@[i as int]));
        i = i + 1;
    }
    assert(s@ == s@.subrange(0, n as int));
    r
}

proof fn lemma_trim_start_step(s: Seq<char>, a: int, to: int)
    requires
        0 <= a < to <= s.len(),
        is_white(s[a]),
    ensures
        trim_start(s.subrange(a, to)) == trim_start(s.subrange(a + 1, to)),
{
    assert(s.subrange(a, to).drop_first() == s.subrange(a + 1, to));
}

proof fn lemma_trim_end_step(s: Seq<char>, a: int, b: int)
    requires
        0 <= a < b <= s.len(),
        is_white(s[b - 1]),
    ensures
        trim_end(s.subrange(a, b)) == trim_end(s.subrange(a, b - 1)),
{
    assert(s.subrange(a, b).drop_last() == s.subrange(a, b - 1));
}

/// The characters of `s` from `from` up to `to`, trimmed, as a new string.
pub fn trimmed_slice(s: &str, chars: &Vec<char>, from: usize, to: usize) -> (r: String)
    requires
        chars@ == s@,
        from <= to <= s@.len(),
    ensures
        r@ == trimmed(s@.subrange(from as int, to as int)),
{
    let mut a = from;
    while a < to && is_white_char(chars[a])
        invariant
            chars@ == s@,
            from <= a <= to <= s@.len(),
            trim_start(s@.subrange(from as int, to as int)) == trim_start(
                s@.subrange(a as int, to as int),
            ),
        decreases to - a,
    {
        proof {
            lemma_trim_start_step(s@, a as int, to as int);
        }
        a = a + 1;
    }
    assert(trim_start(s@.subrange(a as int, to as int)) == s@.subrange(a as int, to as int));
    let mut b = to;
    while b > a && is_white_char(chars[b - 1])
        invariant
            chars@ == s@,
            from <= a <= b <= to <= s@.len(),
            trim_end(s@.subrange(a as int, to as int)) == trim_end(
                s@.subrange(a as int, b as int),
            ),
        decreases b - a,
    {
        proof {
            lemma_trim_end_step(s@, a as int, b as int);
        }
        b = b - 1;
    }
    assert(trim_end(s@.subrange(a as int, b as int)) == s@.subrange(a as int, b as int));
    String::from_str(s.substring_char(a, b))
}

/// The strings of `items` with `sep` between each two neighbours.
pub fn join_with(items: &Vec<String>, sep: &str) -> (r: String)
    ensures
        r@ == joined(views_of(items@), sep@),
{
    let mut r = String::new();
    let mut i: usize = 0;
    while i < items.len()
        invariant
            i <= items@.len(),
            r@ == joined(views_of(items@.subrange(0, i as int)), sep@),
        decreases items@.len() - i,
    {
        let ghost prev = views_of(items@.subrange(0, i as int));
        let ghost next = views_of(items@.subrange(0, i + 1));
        assert(next.drop_last() == prev);
        if i > 0 {
            r.append(sep);
        }
        r.append(items[i].as_str());
        proof {
            if i == 0 {
                assert(r@ == next[0]);
            }
        }
        i = i + 1;
    }
    assert(items@.subrange(0, items@.len() as int) == items@);
    r
}

} // verus!
