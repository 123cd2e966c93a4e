//! What trimming, cutting, splitting and numbering make of a text.

use crate::text;
use vstd::prelude::*;
use vstd::string::*;

verus! {

/// White space: tab to carriage return, the space, next line, no-break space, and
/// the other separators of Unicode.
pub open spec fn blank(c: char) -> bool {
    let u = c as u32;
    ||| 9 <= u <= 13
    ||| u == 32
    ||| u == 133
    ||| u == 160
    ||| u == 5760
    ||| 8192 <= u <= 8202
    ||| u == 8232 || u == 8233 || u == 8239 || u == 8287 || u == 12288
}

/// Whether `core` is what is left of `s` without the white space around it.
pub open spec fn is_core(s: Seq<char>, core: Seq<char>) -> bool {
    exists|a: int, b: int| #[trigger] core_at(s, core, a, b)
}

/// Whether `core` stands from `a` to `b` in `s`, amid white space alone.
pub open spec fn core_at(s: Seq<char>, core: Seq<char>, a: int, b: int) -> bool {
    &&& 0 <= a <= b <= s.len()
    &&& core == s.subrange(a, b)
    &&& forall|i: int| 0 <= i < a || b <= i < s.len() ==> blank(#[trigger] s[i])
    &&& core.len() > 0 ==> !blank(core[0]) && !blank(core.last())
}

/// Whether `t` is `s`, or as much of its beginning as `max` characters hold.
pub open spec fn is_head(s: Seq<char>, max: nat, t: Seq<char>) -> bool {
    &&& t.is_prefix_of(s)
    &&& t.len() <= max
    &&& t.len() < s.len() ==> t.len() == max
}

/// Whether `said` is what is shown of the text `s` where `max` characters are:
/// the beginning of what is left without the white space around it.
pub open spec fn is_shown(s: Seq<char>, max: nat, said: Seq<char>) -> bool {
    exists|core: Seq<char>| #[trigger] is_core(s, core) && is_head(core, max, said)
}

proof fn lemma_trim_end(s: Seq<char>)
    ensures
        text::trim_end(s).len() <= s.len(),
        text::trim_end(s) == s.subrange(0, text::trim_end(s).len() as int),
        forall|i: int| text::trim_end(s).len() <= i < s.len() ==> blank(#[trigger] s[i]),
        text::trim_end(s).len() > 0 ==> !blank(text::trim_end(s).last()),
    decreases s.len(),
{
    if s.len() > 0 && text::white_space(s.last()) {
        let front = s.drop_last();
        lemma_trim_end(front);
        let n = text::trim_end(s).len() as int;
        assert(text::trim_end(s) =~= s.subrange(0, n));
        assert forall|i: int| n <= i < s.len() implies blank(#[trigger] s[i]) by {
            if i < front.len() {
                assert(front[i] == s[i]);
            }
        }
    } else {
        assert(s =~= s.subrange(0, s.len() as int));
    }
}

proof fn lemma_trim_start(s: Seq<char>)
    ensures
        text::trim_start(s).len() <= s.len(),
        text::trim_start(s) == s.subrange(
            s.len() - text::trim_start(s).len(),
            s.len() as int,
        ),
        forall|i: int| 0 <= i < s.len() - text::trim_start(s).len() ==> blank(#[trigger] s[i]),
        text::trim_start(s).len() > 0 ==> !blank(text::trim_start(s)[0]),
    decreases s.len(),
{
    if s.len() > 0 && text::white_space(s[0]) {
        let rest = s.drop_first();
        lemma_trim_start(rest);
        let a = s.len() - text::trim_start(s).len();
        assert(text::trim_start(s) =~= s.subrange(a, s.len() as int));
        assert forall|i: int| 0 <= i < a implies blank(#[trigger] s[i]) by {
            if i > 0 {
                assert(rest[i - 1] == s[i]);
            }
        }
    } else {
        assert(s =~= s.subrange(0, s.len() as int));
    }
}

/// A trimmed text is what is left without the white space around it.
pub proof fn lemma_trimmed_is_core(s: Seq<char>)
    ensures
        is_core(s, text::trimmed(s)),
{
    let t = text::trim_start(s);
    lemma_trim_start(s);
    lemma_trim_end(t);
    let core = text::trimmed(s);
    let a = s.len() - t.len();
    let b = a + core.len();
    assert(core =~= s.subrange(a, b));
    assert forall|i: int| 0 <= i < a || b <= i < s.len() implies blank(#[trigger] s[i]) by {
        if i >= b {
            assert(t[i - a] == s[i]);
        }
    }
    if core.len() > 0 {
        assert(core[0] == t[0]);
    }
    assert(core_at(s, core, a, b));
}

/// Only one text is left of a text without the white space around it.
pub proof fn lemma_one_core(s: Seq<char>, x: Seq<char>, y: Seq<char>)
    requires
        is_core(s, x),
        is_core(s, y),
    ensures
        x == y,
{
    let (a, b) = choose|a: int, b: int| #[trigger] core_at(s, x, a, b);
    let (c, d) = choose|c: int, d: int| #[trigger] core_at(s, y, c, d);
    if x.len() > 0 && y.len() > 0 {
        assert(x[0] == s[a] && x.last() == s[b - 1]);
        assert(y[0] == s[c] && y.last() == s[d - 1]);
        assert(a == c && b == d);
    } else if x.len() > 0 {
        assert(x[0] == s[a]);
        assert(blank(s[a]));
    } else if y.len() > 0 {
        assert(y[0] == s[c]);
        assert(blank(s[c]));
    } else {
        assert(x =~= y);
    }
}

/// What is shown of a text is as its trimmed and cut form says.
pub proof fn lemma_shown(s: Seq<char>, max: nat)
    ensures
        is_shown(s, max, text::truncated(text::trimmed(s), max)),
        is_head(s, max, text::truncated(s, max)),
{
    lemma_trimmed_is_core(s);
    let core = text::trimmed(s);
    assert(is_core(s, core) && is_head(core, max, text::truncated(core, max)));
}

/// Something is shown of a text exactly if not all of it is white space.
pub proof fn lemma_shown_has_words(s: Seq<char>, max: nat, said: Seq<char>)
    requires
        is_shown(s, max, said),
        max > 0,
    ensures
        said.len() > 0 <==> exists|i: int| 0 <= i < s.len() && !blank(#[trigger] s[i]),
{
    let core = choose|core: Seq<char>| #[trigger] is_core(s, core) && is_head(core, max, said);
    let (a, b) = choose|a: int, b: int| #[trigger] core_at(s, core, a, b);
    if core.len() > 0 {
        assert(core[0] == s[a]);
    }
}

/// A text that neither begins nor ends with white space and is not too long is
/// shown as it is.
pub proof fn lemma_plain_text_is_shown(s: Seq<char>, max: nat, said: Seq<char>)
    requires
        is_shown(s, max, said),
        s.len() <= max,
        s.len() > 0 ==> !blank(s[0]) && !blank(s.last()),
    ensures
        said == s,
{
    let core = choose|core: Seq<char>| #[trigger] is_core(s, core) && is_head(core, max, said);
    assert(s =~= s.subrange(0, s.len() as int));
    assert(core_at(s, s, 0, s.len() as int));
    lemma_one_core(s, core, s);
    assert(said =~= s);
}

/// Trimming leaves exactly what stands between the white space at the ends.
pub proof fn trimming_leaves_the_core(s: &str, r: String)
    requires
        call_ensures(text::trim, (s,), r),
    ensures
        is_core(s@, r@),
{
    lemma_trimmed_is_core(s@);
}

/// Cutting keeps the beginning of a text, and all of it if there is room.
pub proof fn cutting_keeps_the_head(s: &str, max: usize, cut: String, shown: String)
    requires
        call_ensures(text::truncate, (s, max), cut),
        call_ensures(text::truncate_chat, (s, max), shown),
    ensures
        is_head(s@, max as nat, cut@),
        is_shown(s@, max as nat, shown@),
{
    lemma_shown(s@, max as nat);
}

/// The pieces of a text put together again, with the separator between them.
pub open spec fn joined(pieces: Seq<Seq<char>>, separator: char) -> Seq<char>
    decreases pieces.len(),
{
    if pieces.len() == 0 {
        Seq::empty()
    } else if pieces.len() == 1 {
        pieces[0]
    } else {
        joined(pieces.drop_last(), separator).push(separator) + pieces.last()
    }
}

proof fn lemma_split(s: Seq<char>, separator: char)
    ensures
        text::split(s, separator).len() > 0,
        joined(text::split(s, separator), separator) == s,
        forall|k: int|
            0 <= k < text::split(s, separator).len() ==> !(#[trigger] text::split(
                s,
                separator,
            )[k]).contains(separator),
    decreases s.len(),
{
    let pieces = text::split(s, separator);
    if s.len() > 0 {
        let before = text::split(s.drop_last(), separator);
        lemma_split(s.drop_last(), separator);
        if s.last() == separator {
            assert(pieces.drop_last() =~= before);
            assert(joined(pieces, separator) =~= s);
        } else {
            assert(pieces.drop_last() =~= before.drop_last());
            assert(pieces.last() == before.last().push(s.last()));
            if before.len() > 1 {
                let head = joined(before.drop_last(), separator).push(separator);
                assert(joined(before, separator) == head + before.last());
                assert(joined(pieces, separator) == head + pieces.last());
                assert(head + pieces.last() =~= (head + before.last()).push(s.last()));
                assert(joined(pieces, separator) =~= s);
            } else {
                assert(joined(pieces, separator) == pieces[0]);
                assert(joined(pieces, separator) =~= s);
            }
            assert forall|k: int| 0 <= k < pieces.len() implies !(
            #[trigger] pieces[k]).contains(separator) by {
                if k < pieces.len() - 1 {
                    assert(pieces[k] == before[k]);
                } else {
                    let piece = pieces[k];
                    assert(piece == before[k].push(s.last()));
                    if piece.contains(separator) {
                        let i = choose|i: int| 0 <= i < piece.len() && piece[i] == separator;
                        assert(before[k][i] == separator);
                        assert(before[k].contains(separator));
                    }
                }
            }
        }
    } else {
        assert(joined(pieces, separator) =~= s);
    }
}

/// The pieces hold no separator, and with one between each two they are the text.
pub proof fn pieces_make_up_the_text(s: &str, separator: char, r: Vec<String>)
    requires
        call_ensures(text::split_at_each, (s, separator), r),
    ensures
        r@.len() > 0,
        joined(text::texts(r@), separator) == s@,
        forall|k: int| 0 <= k < r@.len() ==> !(#[trigger] r@[k])@.contains(separator),
{
    lemma_split(s@, separator);
    assert forall|k: int| 0 <= k < r@.len() implies !(#[trigger] r@[k])@.contains(separator) by {
        assert(text::texts(r@)[k] == r@[k]@);
        assert(!text::split(s@, separator)[k].contains(separator));
    }
}

/// One more piece behind a separator is the last of the pieces.
pub proof fn lemma_split_push(s: Seq<char>, separator: char, piece: Seq<char>)
    requires
        !piece.contains(separator),
    ensures
        text::split(s + seq![separator] + piece, separator) == text::split(s, separator).push(
            piece,
        ),
    decreases piece.len(),
{
    let whole = s + seq![separator] + piece;
    if piece.len() == 0 {
        assert(whole.drop_last() =~= s);
        assert(whole.last() == separator);
        assert(piece =~= Seq::<char>::empty());
        assert(text::split(whole, separator) =~= text::split(s, separator).push(piece));
    } else {
        let front = piece.drop_last();
        assert forall|i: int| 0 <= i < front.len() implies front[i] != separator by {
            assert(piece.contains(piece[i]));
        }
        lemma_split_push(s, separator, front);
        assert(whole.drop_last() =~= s + seq![separator] + front);
        assert(piece.contains(piece.last()));
        assert(whole.last() == piece.last());
        assert(front.push(piece.last()) =~= piece);
        assert(text::split(whole, separator) =~= text::split(s, separator).push(piece));
    }
}

/// A text without the separator is its only piece.
pub proof fn lemma_split_one(piece: Seq<char>, separator: char)
    requires
        !piece.contains(separator),
    ensures
        text::split(piece, separator) == seq![piece],
    decreases piece.len(),
{
    if piece.len() > 0 {
        let front = piece.drop_last();
        assert forall|i: int| 0 <= i < front.len() implies front[i] != separator by {
            assert(piece.contains(piece[i]));
        }
        lemma_split_one(front, separator);
        assert(piece.contains(piece.last()));
        assert(front.push(piece.last()) =~= piece);
        assert(text::split(piece, separator) =~= seq![piece]);
    } else {
        assert(text::split(piece, separator) =~= seq![piece]);
    }
}

/// A written number is read back as itself by every reader that admits it, and
/// from nothing longer than its digits: no digit is lost on the way.
pub proof fn numbers_survive_writing(
    n: u64,
    max: u64,
    written: String,
    seen: &str,
    read: Option<u64>,
)
    requires
        call_ensures(text::write_decimal, (n,), written),
        seen@ == written@,
        call_ensures(text::parse_number, (seen, max), read),
    ensures
        n <= max ==> read == Some(n),
        n > max ==> read is None,
        written@.len() > 0,
        forall|i: int| 0 <= i < written@.len() ==> '0' <= #[trigger] written@[i] <= '9',
        written@.len() > 1 ==> written@[0] != '0',
{
    text::lemma_decimal_digits(n as nat);
    lemma_no_leading_zero(n as nat);
    if n <= max {
        text::decimal_reads_back(n as nat, max as nat);
    }
    assert(text::is_digit(written@[0]));
}

proof fn lemma_no_leading_zero(n: nat)
    ensures
        n >= 10 ==> text::decimal(n).len() > 1,
        n < 10 ==> text::decimal(n).len() == 1,
        n > 0 ==> text::decimal(n)[0] != '0',
        n < 10 ==> text::decimal(n)[0] as u32 == 48 + n,
    decreases n,
{
    if n >= 10 {
        lemma_no_leading_zero(n / 10);
        text::lemma_decimal_digits(n / 10);
    }
}

/// One more digit at the end makes a number ten times as large plus that digit,
/// and nothing but digits behind an optional plus is a number.
pub proof fn digits_count_by_ten(
    s: &str,
    longer: &str,
    max: u64,
    read: Option<u64>,
    read_longer: Option<u64>,
)
    requires
        call_ensures(text::parse_number, (s, max), read),
        call_ensures(text::parse_number, (longer, max), read_longer),
        longer@.len() > 0,
        longer@.drop_last() == s@,
        s@.len() > 0,
    ensures
        read_longer matches Some(n) ==> '0' <= longer@.last() <= '9' && (s@ == seq!['+'] || (
        read matches Some(m) && n == m * 10 + (longer@.last() as u32 - 48))),
        read matches Some(m) ==> '0' <= longer@.last() <= '9' ==> m * 10 + (longer@.last() as u32
            - 48) <= max ==> read_longer is Some,
{
    let plus = s@[0] == '+';
    let digits = if plus {
        s@.drop_first()
    } else {
        s@
    };
    let more = if plus {
        longer@.drop_first()
    } else {
        longer@
    };
    assert(longer@[0] == s@[0]);
    assert(more.drop_last() =~= digits);
    assert(more.last() == longer@.last());
    assert forall|i: int| text::all_digits(more) && 0 <= i < digits.len() implies text::is_digit(
        #[trigger] digits[i],
    ) by {
        assert(more[i] == digits[i]);
    }
    assert forall|i: int|
        text::all_digits(digits) && text::is_digit(more.last()) && 0 <= i < more.len() implies
        text::is_digit(#[trigger] more[i]) by {
        if i < digits.len() {
            assert(more[i] == digits[i]);
        }
    }
    if digits.len() == 0 {
        assert(s@ =~= seq!['+']);
    }
    assert(text::is_digit(more.last()) <== text::all_digits(more)) by {
        if text::all_digits(more) {
            assert(text::is_digit(more[more.len() - 1]));
        }
    }
}

/// A single digit is the number it shows, a plus ahead of a number changes nothing,
/// and neither nothing, nor a plus alone, nor a second plus makes a number.
pub proof fn numbers_start_with_a_digit_or_plus(
    s: &str,
    max: u64,
    read: Option<u64>,
    plus: &str,
    read_plus: Option<u64>,
)
    requires
        call_ensures(text::parse_number, (s, max), read),
        plus@ == seq!['+'] + s@,
        call_ensures(text::parse_number, (plus, max), read_plus),
    ensures
        s@.len() == 0 ==> read is None && read_plus is None,
        s@.len() == 1 && '0' <= s@[0] <= '9' && s@[0] as u32 - 48 <= max ==> (read matches Some(n)
            && n == s@[0] as u32 - 48),
        s@.len() == 1 && !('0' <= s@[0] <= '9') ==> read is None,
        s@.len() > 0 && s@[0] != '+' ==> read_plus == read,
        s@.len() > 0 && s@[0] == '+' ==> read_plus is None,
{
    assert(plus@.drop_first() =~= s@);
    if s@.len() == 1 {
        assert(s@.drop_last() =~= Seq::<char>::empty());
        assert(text::digits_value(Seq::<char>::empty()) == 0);
        if s@[0] == '+' {
            assert(s@.drop_first() =~= Seq::<char>::empty());
        }
    }
    if s@.len() > 0 && s@[0] == '+' {
        assert(!text::is_digit(s@[0]));
    }
}

/// Lower case changes nothing but the letters `A` to `Z`, each to the small letter
/// 32 further on.
pub proof fn only_ascii_capitals_change(s: &str, r: String, i: int)
    requires
        call_ensures(text::to_ascii_lowercase, (s,), r),
        0 <= i < s@.len(),
    ensures
        r@.len() == s@.len(),
        'A' <= s@[i] <= 'Z' ==> r@[i] as u32 == s@[i] as u32 + 32,
        !('A' <= s@[i] <= 'Z') ==> r@[i] == s@[i],
{
}

/// A text is found in another exactly if the other is made of something, the
/// text, and something.
pub proof fn parts_are_found(s: &str, part: &str, r: bool)
    requires
        call_ensures(text::contains, (s, part), r),
    ensures
        r <==> exists|before: Seq<char>, after: Seq<char>|
            s@ == #[trigger] (before + part@ + after),
{
    if r {
        let i = choose|i: int|
            0 <= i <= s@.len() - part@.len() && #[trigger] s@.subrange(i, i + part@.len())
                == part@;
        let before = s@.take(i);
        let after = s@.skip(i + part@.len());
        assert(s@ =~= before + part@ + after);
    }
    if exists|before: Seq<char>, after: Seq<char>| s@ == #[trigger] (before + part@ + after) {
        let (before, after) = choose|before: Seq<char>, after: Seq<char>|
            s@ == #[trigger] (before + part@ + after);
        let i = before.len() as int;
        assert(s@.subrange(i, i + part@.len()) =~= part@);
    }
}

/// What is stripped off and what is left make up the text; where nothing can be
/// stripped, nothing that begins or ends so makes it up.
pub proof fn stripping_undoes_joining(
    s: &str,
    part: &str,
    rest: Seq<char>,
    from_front: Option<String>,
    from_back: Option<String>,
)
    requires
        call_ensures(text::strip_prefix, (s, part), from_front),
        call_ensures(text::strip_suffix, (s, part), from_back),
    ensures
        s@ == part@ + rest ==> text::opt_text(from_front) == Some(rest),
        s@ == rest + part@ ==> text::opt_text(from_back) == Some(rest),
        from_front matches Some(t) ==> s@ == part@ + t@,
        from_back matches Some(t) ==> s@ == t@ + part@,
{
    let n = part@.len() as int;
    if s@ == part@ + rest {
        assert(part@ =~= s@.subrange(0, n));
        if let Some(t) = from_front {
            assert(t@ =~= s@.skip(n));
            assert(rest =~= s@.skip(n));
        }
    }
    if s@ == rest + part@ {
        assert(s@.subrange(s@.len() - n, s@.len() as int) =~= part@);
        if let Some(t) = from_back {
            assert(t@ =~= s@.take(s@.len() - n));
            assert(rest =~= s@.take(s@.len() - n));
        }
    }
}

} // verus!
