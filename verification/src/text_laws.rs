//! What the text functions mean, and which paths and ETags are accepted.
use vstd::prelude::*;
use vstd::string::*;

use crate::digest::hex_text;
use crate::s3_uri::{ascii_lower, ascii_lower_seq, etag_body, etag_md5, is_hex_digit};
use crate::text::{
    decimal_spec, digit_char, digits, find_char, hexadecimal_spec, is_white_space_spec,
    lemma_find_char, signed_decimal_spec, split, trim_end, trim_leading, trim_start, trim_trailing,
};
use crate::zip_path::{
    components_problem, lemma_no_component_problem, normalized_path, path_problem,
};

verus! {

/// Whether a part of some text lies between two separators or ends of the text,
/// with none in between.
pub open spec fn is_part(s: Seq<char>, c: char, a: int, b: int) -> bool {
    &&& 0 <= a <= b <= s.len()
    &&& a == 0 || s[a - 1] == c
    &&& b == s.len() || s[b] == c
    &&& forall|i: int| a <= i < b ==> s[i] != c
}

/// Splitting text gives what lies between its separators, and nothing else.
pub proof fn law_split_gives_the_parts(s: Seq<char>, c: char, part: Seq<char>)
    ensures
        split(s, c).contains(part) <==> exists|a: int, b: int|
            #[trigger] is_part(s, c, a, b) && s.subrange(a, b) == part,
    decreases s.len(),
{
    lemma_find_char(s, c);
    let at = find_char(s, c);
    let parts = split(s, c);
    if at >= s.len() {
        assert(parts == seq![s]);
        assert(parts[0] == s);
        assert(s.subrange(0, s.len() as int) =~= s);
        assert(is_part(s, c, 0, s.len() as int));
        assert forall|a: int, b: int| #[trigger] is_part(s, c, a, b) implies a == 0 && b
            == s.len() by {}
    } else {
        let rest = s.skip(at + 1);
        law_split_gives_the_parts(rest, c, part);
        let tail = split(rest, c);
        assert(parts == seq![s.take(at)] + tail);
        assert(parts[0] == s.take(at));
        assert(s.subrange(0, at) =~= s.take(at));
        assert(is_part(s, c, 0, at));
        if tail.contains(part) {
            let k = tail.index_of(part);
            assert(parts[k + 1] == part);
            let (a, b) = choose|a: int, b: int|
                #[trigger] is_part(rest, c, a, b) && rest.subrange(a, b) == part;
            assert(s.subrange(a + at + 1, b + at + 1) =~= rest.subrange(a, b));
            assert(is_part(s, c, a + at + 1, b + at + 1)) by {
                if a > 0 {
                    assert(rest[a - 1] == s[a + at]);
                }
                if b < rest.len() {
                    assert(rest[b] == s[b + at + 1]);
                }
                assert forall|i: int| a + at + 1 <= i < b + at + 1 implies s[i] != c by {
                    assert(rest[i - at - 1] == s[i]);
                }
            }
        }
        if parts.contains(part) && part != s.take(at) {
            let k = parts.index_of(part);
            assert(tail[k - 1] == part);
        }
        if exists|a: int, b: int|
            #[trigger] is_part(s, c, a, b) && s.subrange(a, b) == part {
            let (a, b) = choose|a: int, b: int|
                #[trigger] is_part(s, c, a, b) && s.subrange(a, b) == part;
            if a == 0 {
                assert(b == at);
            } else {
                assert(a - 1 >= at);
                let x = a - at - 1;
                let y = b - at - 1;
                assert(rest.subrange(x, y) =~= s.subrange(a, b));
                assert(is_part(rest, c, x, y)) by {
                    if x > 0 {
                        assert(rest[x - 1] == s[a - 1]);
                    }
                    if y < rest.len() {
                        assert(rest[y] == s[b]);
                    }
                    assert forall|i: int| x <= i < y implies rest[i] != c by {
                        assert(rest[i] == s[i + at + 1]);
                    }
                }
            }
        }
    }
}

/// The first part of split text ends at the first separator.
pub proof fn law_first_part_comes_first(s: Seq<char>, c: char)
    ensures
        split(s, c).len() > 0,
        is_part(s, c, 0, split(s, c)[0].len() as int),
        s.take(split(s, c)[0].len() as int) == split(s, c)[0],
{
    lemma_find_char(s, c);
    let at = find_char(s, c);
    if at >= s.len() {
        assert(s.take(s.len() as int) =~= s);
    } else {
        assert(split(s, c)[0] == s.take(at));
    }
}

/// Trimming takes off a run of one character, and all of it.
pub proof fn law_trimming_takes_off_the_run(s: Seq<char>, c: char)
    ensures
        ({
            let t = trim_trailing(s, c);
            &&& t.len() <= s.len()
            &&& s.take(t.len() as int) == t
            &&& forall|i: int| t.len() <= i < s.len() ==> s[i] == c
            &&& t.len() > 0 ==> t.last() != c
        }),
        ({
            let t = trim_leading(s, c);
            &&& t.len() <= s.len()
            &&& s.skip(s.len() - t.len()) == t
            &&& forall|i: int| 0 <= i < s.len() - t.len() ==> s[i] == c
            &&& t.len() > 0 ==> t[0] != c
        }),
    decreases s.len(),
{
    if s.len() > 0 && s.last() == c {
        let r = s.drop_last();
        law_trimming_takes_off_the_run(r, c);
        let t = trim_trailing(s, c);
        assert(s.take(t.len() as int) =~= r.take(t.len() as int));
        assert forall|i: int| t.len() <= i < s.len() implies s[i] == c by {
            if i < s.len() - 1 {
                assert(r[i] == s[i]);
            }
        }
    } else {
        assert(s.take(s.len() as int) =~= s);
    }
    if s.len() > 0 && s[0] == c {
        let r = s.skip(1);
        law_trimming_takes_off_the_run(r, c);
        let t = trim_leading(s, c);
        assert(s.skip(s.len() - t.len()) =~= r.skip(r.len() - t.len()));
        assert forall|i: int| 0 <= i < s.len() - t.len() implies s[i] == c by {
            if i > 0 {
                assert(r[i - 1] == s[i]);
            }
        }
    } else {
        assert(s.skip(0) =~= s);
    }
}

/// A ZIP path is accepted exactly where it is not empty, holds neither NUL nor a
/// backslash, does not start with a slash, and of its components, slashes at the end
/// set aside, none is empty, `.` or `..` and the first is no Windows drive.
pub proof fn law_paths_stay_below_their_root(raw: Seq<char>)
    ensures
        path_problem(raw) is None <==> {
            let body = trim_trailing(raw, '/');
            &&& body.len() > 0
            &&& !raw.contains('\0')
            &&& !raw.contains('\\')
            &&& raw[0] != '/'
            &&& forall|a: int, b: int| #[trigger]
                is_part(body, '/', a, b) ==> a < b && !(b == a + 1 && body[a] == '.') && !(b == a
                    + 2 && body[a] == '.' && body[a + 1] == '.') && !(a == 0 && b == 2 && body[1]
                    == ':' && ('a' <= body[0] <= 'z' || 'A' <= body[0] <= 'Z'))
        },
        path_problem(raw) is None && raw.last() != '/' ==> normalized_path(raw) == raw,
        path_problem(raw) is None && raw.last() == '/' ==> normalized_path(raw) == trim_trailing(
            raw,
            '/',
        ).push('/'),
{
    reveal_strlit(".");
    reveal_strlit("..");
    let body = trim_trailing(raw, '/');
    law_trimming_takes_off_the_run(raw, '/');
    let parts = split(body, '/');
    if raw.len() > 0 {
        assert(raw.contains(raw[0]));
    }
    if body.len() > 0 {
        assert(body[0] == raw.take(body.len() as int)[0]);
    }
    if components_problem(parts, 0) is None {
        assert forall|a: int, b: int| #[trigger] is_part(body, '/', a, b) implies a < b && !(b == a
            + 1 && body[a] == '.') && !(b == a + 2 && body[a] == '.' && body[a + 1] == '.') && !(a
            == 0 && b == 2 && body[1] == ':' && ('a' <= body[0] <= 'z' || 'A' <= body[0]
            <= 'Z')) by {
            let part = body.subrange(a, b);
            law_split_gives_the_parts(body, '/', part);
            let k = parts.index_of(part);
            lemma_no_component_problem(parts, 0, k);
            assert(b == a + 1 && body[a] == '.' ==> part =~= "."@);
            assert(b == a + 2 && body[a] == '.' && body[a + 1] == '.' ==> part =~= ".."@);
            if a == 0 {
                law_first_part_comes_first(body, '/');
                let m = parts[0].len() as int;
                assert(m == b);
                assert(parts[0] =~= part);
                lemma_no_component_problem(parts, 0, 0);
            }
        }
    } else {
        lemma_some_problem(parts, 0);
        let k = choose|k: int|
            0 <= k < parts.len() && crate::zip_path::component_problem(
                #[trigger] parts[k],
                k == 0,
            ) is Some;
        let part = parts[k];
        law_split_gives_the_parts(body, '/', part);
        assert(parts.contains(part));
        let (a, b) = choose|a: int, b: int|
            #[trigger] is_part(body, '/', a, b) && body.subrange(a, b) == part;
        assert(part.len() == b - a);
        if k == 0 {
            law_first_part_comes_first(body, '/');
            let m = parts[0].len() as int;
            assert(is_part(body, '/', 0, m));
            assert forall|i: int| 0 <= i < m implies body[i] == part[i] by {
                assert(body.take(m)[i] == body[i]);
            }
        }
        if b > a {
            assert(part[0] == body[a]);
        }
        if b > a + 1 {
            assert(part[1] == body[a + 1]);
        }
        assert(is_part(body, '/', a, b));
    }
}

proof fn lemma_some_problem(parts: Seq<Seq<char>>, from: int)
    requires
        0 <= from,
        components_problem(parts, from) is Some,
    ensures
        exists|k: int|
            from <= k < parts.len() && crate::zip_path::component_problem(
                #[trigger] parts[k],
                k == 0,
            ) is Some,
    decreases parts.len() - from,
{
    if crate::zip_path::component_problem(parts[from], from == 0) is None {
        lemma_some_problem(parts, from + 1);
    }
}

/// The number that digits make.
pub open spec fn digits_value(text: Seq<char>, base: nat) -> nat
    decreases text.len(),
{
    if text.len() == 0 {
        0
    } else {
        digits_value(text.drop_last(), base) * base + digit_value(text.last())
    }
}

/// The value of a digit, `a` to `f` after nine.
pub open spec fn digit_value(c: char) -> nat {
    if '0' <= c <= '9' {
        (c as u32 - '0' as u32) as nat
    } else {
        (c as u32 - 'a' as u32 + 10) as nat
    }
}

proof fn lemma_digits_value(n: nat, base: nat)
    requires
        2 <= base <= 16,
    ensures
        digits_value(digits(n, base), base) == n,
        digits(n, base).len() > 0,
        digits(n, base)[0] == '0' ==> n == 0,
        n == 0 ==> digits(n, base).len() == 1,
    decreases n,
{
    if n < base {
        let text = seq![digit_char(n)];
        assert(text.drop_last() =~= Seq::<char>::empty());
        assert(digits_value(Seq::<char>::empty(), base) == 0);
        assert(0 * base == 0) by (nonlinear_arith);
        assert(digits_value(text, base) == digit_value(digit_char(n)));
    } else {
        assert(n / base < n && n / base > 0 && (n / base) * base + n % base == n && n % base
            < base) by (nonlinear_arith)
            requires
                n >= base,
                base >= 2,
        ;
        lemma_digits_value(n / base, base);
        let front = digits(n / base, base);
        let text = front.push(digit_char(n % base));
        assert(text.drop_last() =~= front);
        assert(digit_value(digit_char(n % base)) == n % base);
    }
}

/// Decimal and hexadecimal text stand for their number, without leading zeros.
pub proof fn law_numbers_are_written_in_full(n: nat)
    ensures
        digits_value(decimal_spec(n), 10) == n,
        digits_value(hexadecimal_spec(n), 16) == n,
        decimal_spec(n)[0] == '0' ==> n == 0,
        hexadecimal_spec(n)[0] == '0' ==> n == 0,
{
    lemma_digits_value(n, 10);
    lemma_digits_value(n, 16);
}

/// Bytes in hexadecimal are two digits each, the higher one first.
pub proof fn law_bytes_are_two_digits_each(bytes: Seq<u8>)
    ensures
        hex_text(bytes).len() == 2 * bytes.len(),
        forall|i: int|
            #![trigger bytes[i]]
            0 <= i < bytes.len() ==> digit_value(hex_text(bytes)[2 * i]) * 16 + digit_value(
                hex_text(bytes)[2 * i + 1],
            ) == bytes[i],
{
    assert forall|i: int| #![trigger bytes[i]] 0 <= i < bytes.len() implies digit_value(
        hex_text(bytes)[2 * i],
    ) * 16 + digit_value(hex_text(bytes)[2 * i + 1]) == bytes[i] by {
        let byte = bytes[i];
        assert((2 * i) / 2 == i && (2 * i + 1) / 2 == i);
        assert(hex_text(bytes)[2 * i] == digit_char((byte / 16) as nat));
        assert(hex_text(bytes)[2 * i + 1] == digit_char((byte % 16) as nat));
        assert(digit_value(digit_char((byte / 16) as nat)) == byte / 16);
        assert(digit_value(digit_char((byte % 16) as nat)) == byte % 16);
    }
}

/// Whether all characters are white space, or all are double quotes.
pub open spec fn is_blank(s: Seq<char>) -> bool {
    forall|i: int| 0 <= i < s.len() ==> #[trigger] is_white_space_spec(s[i])
}

pub open spec fn is_quotes(s: Seq<char>) -> bool {
    forall|i: int| 0 <= i < s.len() ==> (#[trigger] s[i]) == '"'
}

proof fn lemma_trim_start(blank: Seq<char>, rest: Seq<char>)
    requires
        is_blank(blank),
        rest.len() > 0,
        !is_white_space_spec(rest[0]),
    ensures
        trim_start(blank + rest) == rest,
    decreases blank.len(),
{
    let s = blank + rest;
    if blank.len() > 0 {
        let less = blank.skip(1);
        assert(is_white_space_spec(blank[0]));
        assert(s[0] == blank[0]);
        assert forall|i: int| 0 <= i < less.len() implies #[trigger] is_white_space_spec(
            less[i],
        ) by {
            assert(is_white_space_spec(blank[i + 1]));
        }
        lemma_trim_start(less, rest);
        assert(s.skip(1) =~= less + rest);
    } else {
        assert(s =~= rest);
    }
}

proof fn lemma_trim_end(rest: Seq<char>, blank: Seq<char>)
    requires
        is_blank(blank),
        rest.len() > 0,
        !is_white_space_spec(rest.last()),
    ensures
        trim_end(rest + blank) == rest,
    decreases blank.len(),
{
    let s = rest + blank;
    if blank.len() > 0 {
        let less = blank.drop_last();
        assert(is_white_space_spec(blank[blank.len() - 1]));
        assert(s.last() == blank.last());
        assert forall|i: int| 0 <= i < less.len() implies #[trigger] is_white_space_spec(
            less[i],
        ) by {
            assert(is_white_space_spec(blank[i]));
        }
        lemma_trim_end(rest, less);
        assert(s.drop_last() =~= rest + less);
    } else {
        assert(s =~= rest);
    }
}

proof fn lemma_trim_quotes(open: Seq<char>, core: Seq<char>, close: Seq<char>)
    requires
        is_quotes(open),
        is_quotes(close),
        core.len() > 0,
        core[0] != '"',
        core.last() != '"',
    ensures
        trim_trailing(trim_leading(open + core + close, '"'), '"') == core,
    decreases open.len() + close.len(),
{
    let s = open + core + close;
    if open.len() > 0 {
        let less = open.skip(1);
        assert(s[0] == open[0]);
        assert(s.skip(1) =~= less + core + close);
        assert forall|i: int| 0 <= i < less.len() implies (#[trigger] less[i]) == '"' by {
            assert(less[i] == open[i + 1]);
        }
        lemma_trim_quotes(less, core, close);
    } else {
        assert(s =~= core + close);
        assert(s[0] == core[0]);
        assert(trim_leading(s, '"') == s);
        lemma_trim_close(core, close);
    }
}

proof fn lemma_trim_close(core: Seq<char>, close: Seq<char>)
    requires
        is_quotes(close),
        core.len() > 0,
        core.last() != '"',
    ensures
        trim_trailing(core + close, '"') == core,
    decreases close.len(),
{
    let s = core + close;
    if close.len() > 0 {
        let less = close.drop_last();
        assert(s.last() == close[close.len() - 1]);
        assert(s.drop_last() =~= core + less);
        assert forall|i: int| 0 <= i < less.len() implies (#[trigger] less[i]) == '"' by {
            assert(less[i] == close[i]);
        }
        lemma_trim_close(core, less);
    } else {
        assert(s =~= core);
    }
}

/// An ETag, white space and quotes around it set aside, is an MD5 digest exactly
/// where it has thirty-two hexadecimal digits, and the digest is these in lowercase.
pub proof fn law_etag_is_a_digest_of_hexadecimal_digits(
    before: Seq<char>,
    open: Seq<char>,
    core: Seq<char>,
    close: Seq<char>,
    after: Seq<char>,
)
    requires
        is_blank(before),
        is_blank(after),
        is_quotes(open),
        is_quotes(close),
        core.len() > 0,
        core[0] != '"' && core.last() != '"',
        !is_white_space_spec(core[0]) && !is_white_space_spec(core.last()),
    ensures
        match etag_md5(before + open + core + close + after) {
            Some(digest) => {
                &&& core.len() == 32
                &&& digest.len() == 32
                &&& forall|i: int|
                    #![trigger digest[i]]
                    0 <= i < 32 ==> {
                        &&& '0' <= core[i] <= '9' || 'a' <= core[i] <= 'f' ==> digest[i] == core[i]
                        &&& 'A' <= core[i] <= 'F' ==> digest[i] as u32 == core[i] as u32 + 32
                    }
                &&& forall|i: int|
                    0 <= i < 32 ==> ('0' <= (#[trigger] core[i]) <= '9' || 'a' <= core[i] <= 'f'
                        || 'A' <= core[i] <= 'F')
            },
            None => core.len() != 32 || exists|i: int|
                0 <= i < 32 && !('0' <= (#[trigger] core[i]) <= '9' || 'a' <= core[i] <= 'f'
                    || 'A' <= core[i] <= 'F'),
        },
{
    let quoted = open + core + close;
    let etag = before + open + core + close + after;
    assert(etag =~= before + (quoted + after));
    assert(quoted.len() > 0);
    assert(quoted[0] == if open.len() > 0 {
        open[0]
    } else {
        core[0]
    });
    assert(quoted.last() == if close.len() > 0 {
        close[close.len() - 1]
    } else {
        core.last()
    });
    assert((quoted + after)[0] == quoted[0]);
    lemma_trim_start(before, quoted + after);
    lemma_trim_end(quoted, after);
    lemma_trim_quotes(open, core, close);
    let body = etag_body(etag);
    assert(body == ascii_lower_seq(core));
    assert forall|i: int| 0 <= i < core.len() implies (#[trigger] is_hex_digit(body[i]) <==> ('0'
        <= core[i] <= '9' || 'a' <= core[i] <= 'f' || 'A' <= core[i] <= 'F')) by {
        assert(body[i] == ascii_lower(core[i]));
    }
    assert(body.len() == core.len());
    if etag_md5(etag) is Some {
        assert(etag_md5(etag) == Some(body));
        assert forall|i: int| #![trigger body[i]] 0 <= i < 32 implies {
            &&& '0' <= core[i] <= '9' || 'a' <= core[i] <= 'f' ==> body[i] == core[i]
            &&& 'A' <= core[i] <= 'F' ==> body[i] as u32 == core[i] as u32 + 32
        } by {
            assert(is_hex_digit(body[i]));
            assert(body[i] == ascii_lower(core[i]));
        }
        assert forall|i: int| 0 <= i < 32 implies ('0' <= (#[trigger] core[i]) <= '9' || 'a'
            <= core[i] <= 'f' || 'A' <= core[i] <= 'F') by {
            assert(is_hex_digit(body[i]));
        }
    } else if core.len() == 32 {
        let i = choose|i: int| 0 <= i < body.len() && !#[trigger] is_hex_digit(body[i]);
        assert(!('0' <= core[i] <= '9' || 'a' <= core[i] <= 'f' || 'A' <= core[i] <= 'F'));
        assert(etag_md5(etag) is None);
    }
}

/// A negative number is its digits behind a minus sign.
pub proof fn law_negative_numbers_have_a_sign(n: int)
    ensures
        n >= 0 ==> digits_value(signed_decimal_spec(n), 10) == n,
        n < 0 ==> signed_decimal_spec(n)[0] == '-' && digits_value(
            signed_decimal_spec(n).skip(1),
            10,
        ) == -n,
{
    reveal_strlit("-");
    if n < 0 {
        law_numbers_are_written_in_full((-n) as nat);
        assert(signed_decimal_spec(n).skip(1) =~= decimal_spec((-n) as nat));
    } else {
        law_numbers_are_written_in_full(n as nat);
    }
}

} // verus!
