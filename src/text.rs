//! Text primitives shared by every renderer: identifier quoting, decimal
//! numbers and placeholders, each given by a spec function over `Seq<char>`.
use vstd::prelude::*;
use vstd::string::StringExecFns;

use crate::DBImpl;

verus! {

/// The decimal digit `d` (`0 <= d < 10`) as a one-character string.
pub open spec fn digit_text(d: nat) -> Seq<char> {
    if d == 0 { "0"@ }
    else if d == 1 { "1"@ }
    else if d == 2 { "2"@ }
    else if d == 3 { "3"@ }
    else if d == 4 { "4"@ }
    else if d == 5 { "5"@ }
    else if d == 6 { "6"@ }
    else if d == 7 { "7"@ }
    else if d == 8 { "8"@ }
    else { "9"@ }
}

/// The decimal notation of `n`, without sign or leading zeros.
pub open spec fn dec(n: nat) -> Seq<char>
    decreases n,
{
    if n < 10 { digit_text(n) } else { dec(n / 10) + digit_text(n % 10) }
}

/// The character that delimits an identifier on dialect `d`.
pub open spec fn quote_mark(d: DBImpl) -> Seq<char> {
    match d {
        DBImpl::MySQL => "`"@,
        _ => "\""@,
    }
}

/// An identifier as it appears in the text on dialect `d`.
pub open spec fn quoted(d: DBImpl, name: Seq<char>) -> Seq<char> {
    quote_mark(d) + name + quote_mark(d)
}

/// The placeholder that stands for the `n`th (1-based) bound parameter.
pub open spec fn placeholder(d: DBImpl, n: nat) -> Seq<char> {
    match d {
        DBImpl::Postgres => "$"@ + dec(n),
        _ => "?"@,
    }
}

/// Comma-joined quoted identifiers, in order.
pub open spec fn quoted_list(d: DBImpl, names: Seq<Seq<char>>) -> Seq<char>
    decreases names.len(),
{
    if names.len() == 0 {
        Seq::empty()
    } else if names.len() == 1 {
        quoted(d, names[0])
    } else {
        quoted_list(d, names.drop_last()) + ","@ + quoted(d, names.last())
    }
}

/// The views of a list of strings.
pub open spec fn views(v: Seq<String>) -> Seq<Seq<char>> {
    v.map_values(|s: String| s@)
}

fn push_digit(out: &mut String, d: u64)
    requires
        d < 10,
    ensures
        final(out)@ == old(out)@ + digit_text(d as nat),
{
    if d == 0 { out.append("0") }
    else if d == 1 { out.append("1") }
    else if d == 2 { out.append("2") }
    else if d == 3 { out.append("3") }
    else if d == 4 { out.append("4") }
    else if d == 5 { out.append("5") }
    else if d == 6 { out.append("6") }
    else if d == 7 { out.append("7") }
    else if d == 8 { out.append("8") }
    else { out.append("9") }
}

/// Appends the decimal notation of `n`.
pub fn push_dec(out: &mut String, n: u64)
    ensures
        final(out)@ == old(out)@ + dec(n as nat),
    decreases n,
{
    if n < 10 {
        push_digit(out, n);
    } else {
        push_dec(out, n / 10);
        push_digit(out, n % 10);
        proof {
            assert(final(out)@ == old(out)@ + (dec((n / 10) as nat) + digit_text((n % 10) as nat)));
        }
    }
}

/// Appends `name` as a quoted identifier of dialect `d`.
pub fn push_quoted(out: &mut String, d: DBImpl, name: &str)
    ensures
        final(out)@ == old(out)@ + quoted(d, name@),
{
    let q = match d {
        DBImpl::MySQL => "`",
        _ => "\"",
    };
    out.append(q);
    out.append(name);
    out.append(q);
    proof {
        assert(final(out)@ == old(out)@ + (quote_mark(d) + name@ + quote_mark(d)));
    }
}

/// Appends the placeholder of the `n`th bound parameter.
pub fn push_placeholder(out: &mut String, d: DBImpl, n: u64)
    ensures
        final(out)@ == old(out)@ + placeholder(d, n as nat),
{
    match d {
        DBImpl::Postgres => {
            out.append("$");
            push_dec(out, n);
            proof {
                assert(final(out)@ == old(out)@ + ("$"@ + dec(n as nat)));
            }
        },
        _ => out.append("?"),
    }
}

/// Appends the quoted identifiers of `names`, joined by commas.
pub fn push_quoted_list(out: &mut String, d: DBImpl, names: &Vec<String>)
    ensures
        final(out)@ == old(out)@ + quoted_list(d, views(names@)),
{
    let ghost start = out@;
    let mut i: usize = 0;
    while i < names.len()
        invariant
            i <= names.len(),
            out@ == start + quoted_list(d, views(names@.subrange(0, i as int))),
        decreases names.len() - i,
    {
        let ghost before = views(names@.subrange(0, i as int));
        if i > 0 {
            out.append(",");
        }
        push_quoted(out, d, names[i].as_str());
        proof {
            let after = views(names@.subrange(0, i + 1));
            assert(after.drop_last() =~= before);
            assert(after.last() == names@[i as int]@);
            if i == 0 {
                assert(before.len() == 0);
                assert(out@ =~= start + quoted_list(d, after));
            } else {
                assert(out@ =~= start + quoted_list(d, after));
            }
        }
        i = i + 1;
    }
    proof {
        assert(names@.subrange(0, names.len() as int) =~= names@);
    }
}

/// The character that every placeholder of dialect `d` holds once.
pub open spec fn marker(d: DBImpl) -> char {
    match d {
        DBImpl::Postgres => '$',
        _ => '?',
    }
}

/// The number of occurrences of `m` in `s`.
pub open spec fn occurrences(s: Seq<char>, m: char) -> nat
    decreases s.len(),
{
    if s.len() == 0 {
        0
    } else {
        occurrences(s.drop_last(), m) + if s.last() == m { 1nat } else { 0nat }
    }
}

/// `s` does not hold `m`.
pub open spec fn free_of(s: Seq<char>, m: char) -> bool {
    forall|i: int| 0 <= i < s.len() ==> s[i] != m
}

/// Occurrences add up over a concatenation.
pub proof fn lemma_occurrences_append(a: Seq<char>, b: Seq<char>, m: char)
    ensures
        occurrences(a + b, m) == occurrences(a, m) + occurrences(b, m),
    decreases b.len(),
{
    if b.len() == 0 {
        assert(a + b =~= a);
    } else {
        lemma_occurrences_append(a, b.drop_last(), m);
        assert((a + b).drop_last() =~= a + b.drop_last());
    }
}

/// A text free of `m` holds it nowhere.
pub proof fn lemma_occurrences_free(s: Seq<char>, m: char)
    requires
        free_of(s, m),
    ensures
        occurrences(s, m) == 0,
    decreases s.len(),
{
    if s.len() > 0 {
        let t = s.drop_last();
        assert(free_of(t, m)) by {
            assert forall|i: int| 0 <= i < t.len() implies t[i] != m by {
                assert(t[i] == s[i]);
            }
        }
        lemma_occurrences_free(t, m);
    }
}

/// Decimal notation holds no placeholder marker.
pub proof fn lemma_dec_free(n: nat, d: DBImpl)
    ensures
        free_of(dec(n), marker(d)),
    decreases n,
{
    reveal_strlit("0");
    reveal_strlit("1");
    reveal_strlit("2");
    reveal_strlit("3");
    reveal_strlit("4");
    reveal_strlit("5");
    reveal_strlit("6");
    reveal_strlit("7");
    reveal_strlit("8");
    reveal_strlit("9");
    if n >= 10 {
        lemma_dec_free(n / 10, d);
        let a = dec(n / 10);
        let b = digit_text(n % 10);
        assert forall|i: int| 0 <= i < (a + b).len() implies (a + b)[i] != marker(d) by {
            if i >= a.len() {
                assert((a + b)[i] == b[i - a.len()]);
            }
        }
    }
}

/// Each placeholder holds its dialect's marker exactly once.
pub proof fn lemma_placeholder_marks(d: DBImpl, n: nat)
    ensures
        occurrences(placeholder(d, n), marker(d)) == 1,
{
    reveal_strlit("?");
    reveal_strlit("$");
    if d == DBImpl::Postgres {
        assert(occurrences("$"@, '$') == 1) by {
            assert("$"@.drop_last().len() == 0);
            assert(occurrences("$"@.drop_last(), '$') == 0);
            assert("$"@.last() == '$');
        }
        lemma_dec_free(n, d);
        lemma_occurrences_free(dec(n), marker(d));
        lemma_occurrences_append("$"@, dec(n), marker(d));
    } else {
        assert(occurrences("?"@, '?') == 1) by {
            assert("?"@.drop_last().len() == 0);
            assert(occurrences("?"@.drop_last(), '?') == 0);
            assert("?"@.last() == '?');
        }
    }
}

/// A quoted identifier holds a marker only where the name does.
pub proof fn lemma_quoted_marks(d: DBImpl, name: Seq<char>)
    ensures
        occurrences(quoted(d, name), marker(d)) == occurrences(name, marker(d)),
{
    reveal_strlit("`");
    reveal_strlit("\"");
    let q = quote_mark(d);
    assert(free_of(q, marker(d)));
    lemma_occurrences_free(q, marker(d));
    lemma_occurrences_append(q, name, marker(d));
    lemma_occurrences_append(q + name, q, marker(d));
}

/// Every name of the list is free of `m`.
pub open spec fn names_free(names: Seq<String>, m: char) -> bool {
    forall|i: int| 0 <= i < names.len() ==> free_of((#[trigger] names[i])@, m)
}

/// Concatenation keeps texts free of `m`.
pub proof fn lemma_free_add(a: Seq<char>, b: Seq<char>, m: char)
    requires
        free_of(a, m),
        free_of(b, m),
    ensures
        free_of(a + b, m),
{
    assert forall|i: int| 0 <= i < (a + b).len() implies (a + b)[i] != m by {
        if i >= a.len() {
            assert((a + b)[i] == b[i - a.len()]);
        }
    }
}

/// A quoted name is free of `m` where the name is.
pub proof fn lemma_quoted_free(d: DBImpl, name: Seq<char>)
    requires
        free_of(name, marker(d)),
    ensures
        free_of(quoted(d, name), marker(d)),
{
    reveal_strlit("`");
    reveal_strlit("\"");
    lemma_free_add(quote_mark(d), name, marker(d));
    lemma_free_add(quote_mark(d) + name, quote_mark(d), marker(d));
}

/// A list of quoted names is free of the marker where the names are.
pub proof fn lemma_quoted_list_free(d: DBImpl, names: Seq<String>)
    requires
        names_free(names, marker(d)),
    ensures
        free_of(quoted_list(d, views(names)), marker(d)),
    decreases names.len(),
{
    reveal_strlit(",");
    if names.len() > 0 {
        let pre = names.drop_last();
        assert(views(names).drop_last() =~= views(pre));
        assert(names_free(pre, marker(d))) by {
            assert forall|i: int| 0 <= i < pre.len() implies free_of((#[trigger] pre[i])@, marker(d)) by {
                assert(pre[i] == names[i]);
            }
        }
        lemma_quoted_list_free(d, pre);
        assert(views(names).last() == names.last()@);
        assert(free_of(names[names.len() - 1]@, marker(d)));
        lemma_quoted_free(d, names.last()@);
        if names.len() > 1 {
            lemma_free_add(quoted_list(d, views(pre)), ","@, marker(d));
            lemma_free_add(quoted_list(d, views(pre)) + ","@, quoted(d, names.last()@), marker(d));
        }
    }
}

} // verus!
