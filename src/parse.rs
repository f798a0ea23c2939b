//! Parsing of the daemon's two output shapes: "key: value" listings and
//! comma-separated lists.
use vstd::prelude::*;
use crate::text::{split, split_on, strs, trim, trim_ws};

verus! {

/// The characters stripped from the left of a line before it is read.
pub open spec fn is_lead(c: char) -> bool {
    c == ' ' || c == '\n' || c == '\r' || c == '-'
}

/// Number of leading characters of `s` that `is_lead` accepts.
pub open spec fn lead_len(s: Seq<char>) -> nat
    decreases s.len(),
{
    if s.len() > 0 && is_lead(s[0]) {
        1 + lead_len(s.drop_first())
    } else {
        0
    }
}

/// `s` without its leading run of spaces, line breaks and hyphens.
pub open spec fn strip_lead(s: Seq<char>) -> Seq<char> {
    s.skip(lead_len(s) as int)
}

/// `k` is the position of the first `c` in `t`.
pub open spec fn is_first(t: Seq<char>, k: int, c: char) -> bool {
    0 <= k < t.len() && t[k] == c && forall|j: int| 0 <= j < k ==> t[j] != c
}

/// The entry that one line gives: after the leading characters are stripped,
/// the part before the first colon and the part after it, both trimmed; no
/// entry where the line holds no colon.
pub open spec fn entry_of(line: Seq<char>) -> Option<(Seq<char>, Seq<char>)> {
    let t = strip_lead(line);
    if exists|k: int| is_first(t, k, ':') {
        let k = choose|k: int| is_first(t, k, ':');
        Some((trim(t.take(k)), trim(t.skip(k + 1))))
    } else {
        None
    }
}

/// The entries of a sequence of lines, in order.
pub open spec fn entries(ls: Seq<Seq<char>>) -> Seq<(Seq<char>, Seq<char>)>
    decreases ls.len(),
{
    if ls.len() == 0 {
        seq![]
    } else {
        let p = entries(ls.drop_last());
        match entry_of(ls.last()) {
            Some(e) => p.push(e),
            None => p,
        }
    }
}

/// The entries of a "key: value" listing, one per line that holds a colon. A
/// carriage return before a line break is white space, so trimming takes it.
pub open spec fn key_values(s: Seq<char>) -> Seq<(Seq<char>, Seq<char>)> {
    entries(split(s, '\n'))
}

/// The view of a pair of strings.
pub open spec fn view_pair(p: (String, String)) -> (Seq<char>, Seq<char>) {
    (p.0@, p.1@)
}

/// The views of a sequence of string pairs.
pub open spec fn pairs(v: Seq<(String, String)>) -> Seq<(Seq<char>, Seq<char>)> {
    v.map_values(|p: (String, String)| view_pair(p))
}

/// `s` with every `from` replaced by `to`.
pub open spec fn replace_char(s: Seq<char>, from: char, to: char) -> Seq<char> {
    s.map_values(|c: char| if c == from { to } else { c })
}

/// The items of a comma-separated list: leading characters stripped,
/// underscores read as spaces, each item trimmed; no item where nothing is
/// left after the leading characters.
pub open spec fn list_items(s: Seq<char>) -> Seq<Seq<char>> {
    let u = replace_char(strip_lead(s), '_', ' ');
    if u.len() == 0 {
        seq![]
    } else {
        split(u, ',').map_values(|x: Seq<char>| trim(x))
    }
}

proof fn lemma_lead_len_le(s: Seq<char>)
    ensures
        lead_len(s) <= s.len(),
    decreases s.len(),
{
    if s.len() > 0 && is_lead(s[0]) {
        lemma_lead_len_le(s.drop_first());
    }
}

fn is_lead_char(c: char) -> (r: bool)
    ensures
        r == is_lead(c),
{
    c == ' ' || c == '\n' || c == '\r' || c == '-'
}

/// Position of the first character of `s` that is not a leading character.
fn lead_end(s: &str) -> (a: usize)
    ensures
        a == lead_len(s@),
        a <= s@.len(),
{
    let n = s.unicode_len();
    let mut a: usize = 0;
    assert(s@.skip(0) =~= s@);
    while a < n && is_lead_char(s.get_char(a))
        invariant
            n == s@.len(),
            a <= n,
            lead_len(s@) == a + lead_len(s@.skip(a as int)),
        decreases n - a,
    {
        assert(s@.skip(a as int).drop_first() =~= s@.skip(a + 1));
        a = a + 1;
    }
    proof {
        lemma_lead_len_le(s@.skip(a as int));
    }
    a
}

/// Copies `s` with every `from` replaced by the one character of `to`.
pub fn replace_with(s: &str, from: char, to: &str) -> (r: String)
    requires
        to@.len() == 1,
    ensures
        r@ == replace_char(s@, from, to@[0]),
{
    let n = s.unicode_len();
    let mut out = String::new();
    let mut i: usize = 0;
    while i < n
        invariant
            n == s@.len(),
            i <= n,
            to@.len() == 1,
            out@ == replace_char(s@.take(i as int), from, to@[0]),
        decreases n - i,
    {
        let c = s.get_char(i);
        if c == from {
            out.append(to);
        } else {
            out.append(s.substring_char(i, i + 1));
        }
        assert(out@ =~= replace_char(s@.take(i + 1), from, to@[0]));
        i = i + 1;
    }
    assert(s@.take(n as int) =~= s@);
    out
}

/// The entry of one line, where it holds a colon.
fn line_entry(line: &str) -> (r: Option<(String, String)>)
    ensures
        r is Some <==> entry_of(line@) is Some,
        r is Some ==> entry_of(line@) == Some(view_pair(r->0)),
{
    let n = line.unicode_len();
    let a = lead_end(line);
    let ghost t = strip_lead(line@);
    let mut k: usize = a;
    while k < n && line.get_char(k) != ':'
        invariant
            n == line@.len(),
            a <= k <= n,
            t == line@.skip(a as int),
            forall|j: int| 0 <= j < k - a ==> t[j] != ':',
        decreases n - k,
    {
        k = k + 1;
    }
    if k == n {
        assert forall|m: int| !is_first(t, m, ':') by {
            if is_first(t, m, ':') {
                assert(t[m] == ':');
            }
        }
        None
    } else {
        let key = trim_ws(line.substring_char(a, k));
        let value = trim_ws(line.substring_char(k + 1, n));
        proof {
            let m = (k - a) as int;
            assert(is_first(t, m, ':'));
            let c = choose|c: int| is_first(t, c, ':');
            assert(c == m) by {
                if c < m {
                    assert(t[c] != ':');
                } else if c > m {
                    assert(t[m] != ':');
                }
            }
            assert(t.take(m) =~= line@.subrange(a as int, k as int));
            assert(t.skip(m + 1) =~= line@.subrange(k + 1, n as int));
        }
        Some((key, value))
    }
}

/// Reads a "key: value" listing into its entries, in the order of the lines.
/// A line without a colon gives no entry.
pub fn parse_key_value(text: &str) -> (r: Vec<(String, String)>)
    ensures
        pairs(r@) == key_values(text@),
{
    let lines = split_on(text, '\n');
    let ghost ls = split(text@, '\n');
    let mut out: Vec<(String, String)> = Vec::new();
    let mut k: usize = 0;
    assert(ls.take(0) =~= Seq::<Seq<char>>::empty());
    while k < lines.len()
        invariant
            strs(lines@) == ls,
            k <= lines.len(),
            pairs(out@) == entries(ls.take(k as int)),
        decreases lines.len() - k,
    {
        let e = line_entry(lines[k].as_str());
        assert(ls[k as int] == lines@[k as int]@);
        assert(ls.take(k + 1).drop_last() =~= ls.take(k as int));
        let ghost before = out@;
        match e {
            Some(p) => {
                out.push(p);
                assert(pairs(out@) =~= pairs(before).push(view_pair(p)));
            },
            None => {},
        }
        k = k + 1;
    }
    assert(ls.take(lines.len() as int) =~= ls);
    out
}

/// Reads a comma-separated list into its items.
pub fn parse_list(text: &str) -> (r: Vec<String>)
    ensures
        strs(r@) == list_items(text@),
{
    let n = text.unicode_len();
    let a = lead_end(text);
    proof {
        reveal_strlit(" ");
    }
    let u = replace_with(text.substring_char(a, n), '_', " ");
    assert(text@.subrange(a as int, n as int) =~= strip_lead(text@));
    let mut out: Vec<String> = Vec::new();
    if u.unicode_len() == 0 {
        assert(strs(out@) =~= list_items(text@));
        return out;
    }
    let pieces = split_on(u.as_str(), ',');
    let ghost ps = split(u@, ',');
    let mut k: usize = 0;
    while k < pieces.len()
        invariant
            strs(pieces@) == ps,
            k <= pieces.len(),
            strs(out@) == ps.take(k as int).map_values(|x: Seq<char>| trim(x)),
        decreases pieces.len() - k,
    {
        let item = trim_ws(pieces[k].as_str());
        assert(ps[k as int] == pieces@[k as int]@);
        let ghost before = out@;
        out.push(item);
        assert(strs(out@) =~= strs(before).push(item@));
        assert(strs(out@) =~= ps.take(k + 1).map_values(|x: Seq<char>| trim(x)));
        k = k + 1;
    }
    assert(ps.take(pieces.len() as int) =~= ps);
    out
}

} // verus!

verus! {

proof fn lemma_split_without_sep(s: Seq<char>, sep: char)
    requires
        forall|i: int| 0 <= i < s.len() ==> s[i] != sep,
    ensures
        split(s, sep) == seq![s],
    decreases s.len(),
{
    if s.len() == 0 {
        assert(s =~= Seq::<char>::empty());
    } else {
        lemma_split_without_sep(s.drop_last(), sep);
        assert(s.drop_last().push(s.last()) =~= s);
        assert(seq![s.drop_last()].update(0, s.drop_last().push(s.last())) =~= seq![s]);
    }
}

proof fn lemma_split_append(s: Seq<char>, l: Seq<char>, sep: char)
    requires
        forall|i: int| 0 <= i < l.len() ==> l[i] != sep,
    ensures
        split(s.push(sep) + l, sep) == split(s, sep).push(l),
    decreases l.len(),
{
    if l.len() == 0 {
        assert(l =~= Seq::<char>::empty());
        assert(s.push(sep) + l =~= s.push(sep));
        assert(s.push(sep).drop_last() =~= s);
    } else {
        let x = s.push(sep) + l;
        assert(x.drop_last() =~= s.push(sep) + l.drop_last());
        lemma_split_append(s, l.drop_last(), sep);
        let init = split(s, sep).push(l.drop_last());
        assert(x.last() == l.last());
        assert(split(x, sep) == init.update(init.len() - 1, init.last().push(x.last())));
        assert(l.drop_last().push(l.last()) =~= l);
        assert(init.update(init.len() - 1, init.last().push(x.last())) =~= split(s, sep).push(l));
    }
}

proof fn lemma_no_colon_no_entry(line: Seq<char>)
    requires
        forall|i: int| 0 <= i < line.len() ==> line[i] != ':',
    ensures
        entry_of(line) is None,
{
    let t = strip_lead(line);
    lemma_lead_len_le(line);
    assert forall|k: int| !is_first(t, k, ':') by {
        if is_first(t, k, ':') {
            assert(t[k] == line[k + lead_len(line)]);
        }
    }
}

/// A single line `lead key: value`, where `key` holds no colon, gives exactly
/// one entry: `key` and `value` trimmed of surrounding white space, after the
/// leading spaces, line breaks and hyphens are stripped.
pub proof fn lemma_well_formed_line(line: Seq<char>, k: int)
    requires
        forall|i: int| 0 <= i < line.len() ==> line[i] != '\n',
        is_first(strip_lead(line), k, ':'),
    ensures
        key_values(line) == seq![(trim(strip_lead(line).take(k)), trim(strip_lead(line).skip(k + 1)))],
{
    lemma_split_without_sep(line, '\n');
    let t = strip_lead(line);
    let c = choose|c: int| is_first(t, c, ':');
    if c < k {
        assert(t[c] != ':');
    } else if k < c {
        assert(t[k] != ':');
    }
    let ls = seq![line];
    assert(ls.drop_last() =~= Seq::<Seq<char>>::empty());
    assert(entries(Seq::<Seq<char>>::empty()) == Seq::<(Seq<char>, Seq<char>)>::empty());
    assert(ls.last() == line);
    assert(entry_of(line) == Some((trim(t.take(k)), trim(t.skip(k + 1)))));
    assert(seq![].push((trim(t.take(k)), trim(t.skip(k + 1)))) =~= seq![(trim(t.take(k)), trim(t.skip(k + 1)))]);
}

/// A line without a colon contributes no entry: alone it gives none, and
/// after any text it leaves that text's entries as they are.
pub proof fn lemma_line_without_colon(text: Seq<char>, line: Seq<char>)
    requires
        forall|i: int| 0 <= i < line.len() ==> line[i] != ':' && line[i] != '\n',
    ensures
        key_values(line) == Seq::<(Seq<char>, Seq<char>)>::empty(),
        key_values(text.push('\n') + line) == key_values(text),
{
    lemma_no_colon_no_entry(line);
    lemma_split_without_sep(line, '\n');
    assert(seq![line].drop_last() =~= Seq::<Seq<char>>::empty());
    assert(entries(Seq::<Seq<char>>::empty()) == Seq::<(Seq<char>, Seq<char>)>::empty());
    assert(seq![line].last() == line);
    assert(entries(seq![line]) == entries(seq![line].drop_last()));
    lemma_split_append(text, line, '\n');
    assert(split(text, '\n').push(line).drop_last() =~= split(text, '\n'));
}

} // verus!

verus! {

proof fn lemma_split_len(s: Seq<char>, sep: char)
    ensures
        split(s, sep).len() >= 1,
    decreases s.len(),
{
    if s.len() > 0 {
        lemma_split_len(s.drop_last(), sep);
    }
}

proof fn lemma_split_concat(x: Seq<char>, y: Seq<char>, sep: char)
    ensures
        split(x.push(sep) + y, sep) == split(x, sep) + split(y, sep),
    decreases y.len(),
{
    if y.len() == 0 {
        assert(y =~= Seq::<char>::empty());
        assert(x.push(sep) + y =~= x.push(sep));
        assert(x.push(sep).drop_last() =~= x);
        assert(split(y, sep) =~= seq![Seq::<char>::empty()]);
        assert(split(x, sep).push(Seq::<char>::empty()) =~= split(x, sep) + seq![Seq::<char>::empty()]);
    } else {
        let z = x.push(sep) + y;
        assert(z.drop_last() =~= x.push(sep) + y.drop_last());
        assert(z.last() == y.last());
        lemma_split_concat(x, y.drop_last(), sep);
        lemma_split_len(y.drop_last(), sep);
        let a = split(x, sep);
        let b = split(y.drop_last(), sep);
        if y.last() == sep {
            assert((a + b).push(Seq::<char>::empty()) =~= a + b.push(Seq::<char>::empty()));
        } else {
            let ab = a + b;
            assert(ab.update(ab.len() - 1, ab.last().push(y.last())) =~= a + b.update(
                b.len() - 1,
                b.last().push(y.last()),
            ));
        }
    }
}

proof fn lemma_entries_concat(xs: Seq<Seq<char>>, ys: Seq<Seq<char>>)
    ensures
        entries(xs + ys) == entries(xs) + entries(ys),
    decreases ys.len(),
{
    if ys.len() == 0 {
        assert(xs + ys =~= xs);
        assert(entries(ys) == Seq::<(Seq<char>, Seq<char>)>::empty());
        assert(entries(xs) + entries(ys) =~= entries(xs));
    } else {
        assert((xs + ys).drop_last() =~= xs + ys.drop_last());
        assert((xs + ys).last() == ys.last());
        lemma_entries_concat(xs, ys.drop_last());
        match entry_of(ys.last()) {
            Some(e) => {
                assert((entries(xs) + entries(ys.drop_last())).push(e) =~= entries(xs) + entries(
                    ys.drop_last(),
                ).push(e));
            },
            None => {},
        }
    }
}

/// Two texts joined by a line break give the entries of the first followed
/// by those of the second.
pub proof fn lemma_key_values_concat(a: Seq<char>, b: Seq<char>)
    ensures
        key_values(a.push('\n') + b) == key_values(a) + key_values(b),
{
    lemma_split_concat(a, b, '\n');
    lemma_entries_concat(split(a, '\n'), split(b, '\n'));
}

/// A line `lead key: value`, where `key` holds no colon, gives its entry at
/// its place among the lines, whatever stands before and after it: `key` and
/// `value` trimmed of surrounding white space, after the leading spaces, line
/// breaks and hyphens are stripped.
pub proof fn lemma_well_formed_line_in_text(before: Seq<char>, line: Seq<char>, after: Seq<char>, k: int)
    requires
        forall|i: int| 0 <= i < line.len() ==> line[i] != '\n',
        is_first(strip_lead(line), k, ':'),
    ensures
        key_values(line.push('\n') + after) == seq![
            (trim(strip_lead(line).take(k)), trim(strip_lead(line).skip(k + 1))),
        ] + key_values(after),
        key_values(before.push('\n') + line.push('\n') + after) == key_values(before) + seq![
            (trim(strip_lead(line).take(k)), trim(strip_lead(line).skip(k + 1))),
        ] + key_values(after),
{
    lemma_well_formed_line(line, k);
    lemma_key_values_concat(line, after);
    lemma_key_values_concat(before, line);
    assert(before.push('\n') + line.push('\n') + after =~= (before.push('\n') + line).push('\n') + after);
    lemma_key_values_concat(before.push('\n') + line, after);
}

/// A line without a colon adds no entry wherever it is inserted: at the
/// start of a text, or after any line break.
pub proof fn lemma_insert_line_without_colon(before: Seq<char>, line: Seq<char>, after: Seq<char>)
    requires
        forall|i: int| 0 <= i < line.len() ==> line[i] != ':' && line[i] != '\n',
    ensures
        key_values(line.push('\n') + after) == key_values(after),
        key_values(before.push('\n') + line.push('\n') + after) == key_values(before.push('\n') + after),
{
    lemma_line_without_colon(before, line);
    lemma_key_values_concat(line, after);
    assert(key_values(line) + key_values(after) =~= key_values(after));
    lemma_key_values_concat(before, line);
    assert(before.push('\n') + line.push('\n') + after =~= (before.push('\n') + line).push('\n') + after);
    lemma_key_values_concat(before.push('\n') + line, after);
    lemma_key_values_concat(before, after);
    assert(key_values(before) + key_values(line) =~= key_values(before));
}

} // verus!

verus! {

/// `line` holds a colon.
pub open spec fn has_colon(line: Seq<char>) -> bool {
    exists|i: int| 0 <= i < line.len() && line[i] == ':'
}

proof fn lemma_lead_chars(s: Seq<char>, j: int)
    requires
        0 <= j < lead_len(s),
    ensures
        is_lead(s[j]),
    decreases s.len(),
{
    lemma_lead_len_le(s);
    if j > 0 {
        lemma_lead_chars(s.drop_first(), j - 1);
        assert(s.drop_first()[j - 1] == s[j]);
    }
}

proof fn lemma_first_exists(t: Seq<char>, i: int, c: char)
    requires
        0 <= i < t.len(),
        t[i] == c,
    ensures
        exists|k: int| is_first(t, k, c),
    decreases i,
{
    if exists|j: int| 0 <= j < i && t[j] == c {
        let j = choose|j: int| 0 <= j < i && t[j] == c;
        lemma_first_exists(t, j, c);
    } else {
        assert(is_first(t, i, c));
    }
}

proof fn lemma_entry_iff_colon(line: Seq<char>)
    ensures
        entry_of(line) is Some <==> has_colon(line),
{
    let n = lead_len(line);
    lemma_lead_len_le(line);
    let t = strip_lead(line);
    if has_colon(line) {
        let i = choose|i: int| 0 <= i < line.len() && line[i] == ':';
        if i < n {
            lemma_lead_chars(line, i);
        }
        assert(t[i - n] == ':');
        lemma_first_exists(t, i - n, ':');
    }
    if exists|k: int| is_first(t, k, ':') {
        let k = choose|k: int| is_first(t, k, ':');
        assert(line[k + n] == ':');
    }
}

proof fn lemma_entries_len(ls: Seq<Seq<char>>)
    ensures
        entries(ls).len() == ls.filter(|l: Seq<char>| has_colon(l)).len(),
    decreases ls.len(),
{
    reveal(Seq::filter);
    if ls.len() > 0 {
        lemma_entries_len(ls.drop_last());
        lemma_entry_iff_colon(ls.last());
    }
}

/// A listing gives one entry for each of its lines that holds a colon, and
/// none where no line does.
pub proof fn lemma_entry_count(text: Seq<char>)
    ensures
        key_values(text).len() == split(text, '\n').filter(|l: Seq<char>| has_colon(l)).len(),
        !has_colon(text) ==> key_values(text).len() == 0,
{
    lemma_entries_len(split(text, '\n'));
    if !has_colon(text) {
        lemma_no_colon_lines(text);
    }
}

proof fn lemma_pieces_without(s: Seq<char>, sep: char, c: char)
    requires
        forall|i: int| 0 <= i < s.len() ==> s[i] != c,
    ensures
        forall|j: int, i: int|
            0 <= j < split(s, sep).len() && 0 <= i < split(s, sep)[j].len() ==> split(s, sep)[j][i] != c,
    decreases s.len(),
{
    if s.len() > 0 {
        lemma_pieces_without(s.drop_last(), sep, c);
        lemma_split_len(s.drop_last(), sep);
        let ls = split(s.drop_last(), sep);
        if s.last() != sep {
            let p = ls.last().push(s.last());
            assert forall|i: int| 0 <= i < p.len() implies p[i] != c by {
                if i < ls.last().len() {
                    assert(ls[ls.len() - 1][i] != c);
                }
            }
        }
    }
}

proof fn lemma_no_entries(ls: Seq<Seq<char>>)
    requires
        forall|j: int| 0 <= j < ls.len() ==> !has_colon(#[trigger] ls[j]),
    ensures
        entries(ls).len() == 0,
    decreases ls.len(),
{
    if ls.len() > 0 {
        lemma_no_entries(ls.drop_last());
        lemma_entry_iff_colon(ls.last());
    }
}

proof fn lemma_no_colon_lines(text: Seq<char>)
    requires
        !has_colon(text),
    ensures
        entries(split(text, '\n')).len() == 0,
{
    lemma_pieces_without(text, '\n', ':');
    let ls = split(text, '\n');
    assert forall|j: int| 0 <= j < ls.len() implies !has_colon(#[trigger] ls[j]) by {
        if has_colon(ls[j]) {
            let i = choose|i: int| 0 <= i < ls[j].len() && ls[j][i] == ':';
        }
    }
    lemma_no_entries(ls);
}

} // verus!
