//! JSON codec for the stored profile document.
//!
//! The serializer emits one pretty-printed JSON object with the fields
//! `username`, `email`, `joinDate`, `totalTime`, `avatar`, `signature` and
//! `activities` in that order; each activity object holds `id`, `action`,
//! `target` and `timestamp`. The parser accepts that shape with arbitrary
//! whitespace between tokens and inverts the serializer exactly: any other
//! content is rejected, which the store treats as absent data.
use vstd::prelude::*;
use vstd::string::StrSliceExecFns;

use crate::ext::chars_to_string;
use crate::profile::{Activity, ActivityView, Profile, ProfileView, view_opt_string};

verus! {

// ---------------------------------------------------------------------------
// Characters
// ---------------------------------------------------------------------------

/// JSON whitespace.
pub open spec fn is_ws(c: char) -> bool {
    c == ' ' || c == '\n' || c == '\r' || c == '\t'
}

pub open spec fn is_dec_digit(c: char) -> bool {
    '0' <= c && c <= '9'
}

pub open spec fn dec_val(c: char) -> int {
    c as int - '0' as int
}

/// The decimal digit character for `d` (`0 <= d <= 9`).
pub open spec fn dec_char(d: int) -> char {
    (('0' as int + d) as u8) as char
}

/// The lower-case hexadecimal digit character for `d` (`0 <= d <= 15`).
pub open spec fn hex_char(d: int) -> char {
    if d < 10 {
        (('0' as int + d) as u8) as char
    } else {
        (('a' as int + (d - 10)) as u8) as char
    }
}

pub open spec fn is_lower_hex_digit(c: char) -> bool {
    ('0' <= c && c <= '9') || ('a' <= c && c <= 'f')
}

pub open spec fn hex_val(c: char) -> int {
    if '0' <= c && c <= '9' {
        c as int - '0' as int
    } else {
        c as int - 'a' as int + 10
    }
}

// ---------------------------------------------------------------------------
// Serializer
// ---------------------------------------------------------------------------

/// How one character appears inside a JSON string literal: quote and
/// backslash are escaped, control characters become `\u00XX`, everything
/// else stands for itself.
pub open spec fn escape_char(c: char) -> Seq<char> {
    if c == '"' {
        seq!['\\', '"']
    } else if c == '\\' {
        seq!['\\', '\\']
    } else if (c as int) < 32 {
        seq!['\\', 'u', '0', '0', hex_char(c as int / 16), hex_char(c as int % 16)]
    } else {
        seq![c]
    }
}

pub open spec fn ser_string_body(s: Seq<char>) -> Seq<char>
    decreases s.len(),
{
    if s.len() == 0 {
        Seq::<char>::empty()
    } else {
        escape_char(s[0]) + ser_string_body(s.skip(1))
    }
}

/// A JSON string literal: the escaped body between double quotes.
pub open spec fn ser_string(s: Seq<char>) -> Seq<char> {
    seq!['"'] + ser_string_body(s) + seq!['"']
}

/// An optional string: `null` when absent, a string literal otherwise.
pub open spec fn ser_opt_string(o: Option<Seq<char>>) -> Seq<char> {
    match o {
        Option::Some(s) => ser_string(s),
        Option::None => "null"@,
    }
}

/// The decimal digits of `n >= 0`, most significant first, no leading zeros
/// (except for `n == 0` itself).
pub open spec fn dec_digits(n: int) -> Seq<char>
    decreases n,
{
    if n < 10 {
        seq![dec_char(n)]
    } else {
        dec_digits(n / 10) + seq![dec_char(n % 10)]
    }
}

/// A JSON integer: optional minus sign followed by the decimal digits.
pub open spec fn ser_i64(n: int) -> Seq<char> {
    if n < 0 {
        seq!['-'] + dec_digits(-n)
    } else {
        dec_digits(n)
    }
}

/// One activity object, indented for its place inside the activities array.
pub open spec fn ser_activity(a: ActivityView) -> Seq<char> {
    "{\n      \"id\": "@ + ser_string(a.id) + ",\n      \"action\": "@ + ser_string(a.action)
        + ",\n      \"target\": "@ + ser_string(a.target) + ",\n      \"timestamp\": "@
        + ser_string(a.timestamp) + "\n    }"@
}

/// The activity objects joined by commas; `acts` is non-empty.
pub open spec fn ser_activity_items(acts: Seq<ActivityView>) -> Seq<char>
    decreases acts.len(),
{
    if acts.len() <= 1 {
        ser_activity(acts[0])
    } else {
        ser_activity(acts[0]) + ",\n    "@ + ser_activity_items(acts.skip(1))
    }
}

/// The activities array.
pub open spec fn ser_activities(acts: Seq<ActivityView>) -> Seq<char> {
    if acts.len() == 0 {
        "[]"@
    } else {
        "[\n    "@ + ser_activity_items(acts) + "\n  ]"@
    }
}

/// The whole profile document.
pub open spec fn ser_profile(p: ProfileView) -> Seq<char> {
    "{\n  \"username\": "@ + ser_opt_string(p.username) + ",\n  \"email\": "@ + ser_opt_string(
        p.email,
    ) + ",\n  \"joinDate\": "@ + ser_opt_string(p.join_date) + ",\n  \"totalTime\": "@ + ser_i64(
        p.total_time,
    ) + ",\n  \"avatar\": "@ + ser_opt_string(p.avatar) + ",\n  \"signature\": "@ + ser_opt_string(
        p.signature,
    ) + ",\n  \"activities\": "@ + ser_activities(p.activities) + "\n}"@
}

proof fn lemma_ser_body_snoc(s: Seq<char>, c: char)
    ensures
        ser_string_body(s.push(c)) == ser_string_body(s) + escape_char(c),
    decreases s.len(),
{
    if s.len() == 0 {
        assert(s.push(c)[0] == c);
        assert(s.push(c).skip(1) =~= Seq::<char>::empty());
        assert(ser_string_body(s.push(c)) == escape_char(c) + ser_string_body(
            Seq::<char>::empty(),
        ));
        assert(ser_string_body(s.push(c)) =~= ser_string_body(s) + escape_char(c));
    } else {
        assert(s.push(c).skip(1) =~= s.skip(1).push(c));
        lemma_ser_body_snoc(s.skip(1), c);
        assert(ser_string_body(s.push(c)) =~= ser_string_body(s) + escape_char(c));
    }
}

proof fn lemma_ser_items_snoc(s: Seq<ActivityView>, a: ActivityView)
    requires
        s.len() >= 1,
    ensures
        ser_activity_items(s.push(a)) == ser_activity_items(s) + ",\n    "@ + ser_activity(a),
    decreases s.len(),
{
    if s.len() == 1 {
        assert(s.push(a).skip(1) =~= seq![a]);
        assert(ser_activity_items(seq![a]) == ser_activity(a));
        assert(ser_activity_items(s.push(a)) =~= ser_activity_items(s) + ",\n    "@
            + ser_activity(a));
    } else {
        assert(s.push(a).skip(1) =~= s.skip(1).push(a));
        lemma_ser_items_snoc(s.skip(1), a);
        assert(ser_activity_items(s.push(a)) =~= ser_activity_items(s) + ",\n    "@
            + ser_activity(a));
    }
}

/// Append every character of `s` to `out`.
fn push_str_chars(out: &mut Vec<char>, s: &str)
    ensures
        final(out)@ == old(out)@ + s@,
{
    let ghost out0 = out@;
    let n = s.unicode_len();
    let mut k: usize = 0;
    while k < n
        invariant
            n == s@.len(),
            k <= n,
            out@ == out0 + s@.take(k as int),
        decreases n - k,
    {
        let c = s.get_char(k);
        out.push(c);
        k = k + 1;
        proof {
            assert(s@.take(k as int) =~= s@.take(k - 1 as int).push(s@[k - 1]));
        }
    }
    proof {
        assert(s@.take(n as int) =~= s@);
    }
}

fn hex_char_exec(d: u8) -> (r: char)
    requires
        d < 16,
    ensures
        r == hex_char(d as int),
{
    if d < 10 {
        ((48u8 + d) as char)
    } else {
        ((97u8 + (d - 10)) as char)
    }
}

/// Append the escaped form of one character.
fn push_escaped(out: &mut Vec<char>, c: char)
    ensures
        final(out)@ == old(out)@ + escape_char(c),
{
    let ghost out0 = out@;
    if c == '"' {
        out.push('\\');
        out.push('"');
        proof {
            assert(out@ =~= out0 + escape_char(c));
        }
    } else if c == '\\' {
        out.push('\\');
        out.push('\\');
        proof {
            assert(out@ =~= out0 + escape_char(c));
        }
    } else if (c as u32) < 32 {
        let v = c as u8;
        out.push('\\');
        out.push('u');
        out.push('0');
        out.push('0');
        out.push(hex_char_exec(v / 16));
        out.push(hex_char_exec(v % 16));
        proof {
            assert(v as int == c as int);
            assert(out@ =~= out0 + escape_char(c));
        }
    } else {
        out.push(c);
        proof {
            assert(out@ =~= out0 + escape_char(c));
        }
    }
}

/// Append a JSON string literal for `s`.
fn push_json_string(out: &mut Vec<char>, s: &str)
    ensures
        final(out)@ == old(out)@ + ser_string(s@),
{
    let ghost out0 = out@;
    out.push('"');
    let n = s.unicode_len();
    let mut k: usize = 0;
    while k < n
        invariant
            n == s@.len(),
            k <= n,
            out@ == out0 + seq!['"'] + ser_string_body(s@.take(k as int)),
        decreases n - k,
    {
        let c = s.get_char(k);
        push_escaped(out, c);
        k = k + 1;
        proof {
            lemma_ser_body_snoc(s@.take(k - 1 as int), s@[k - 1]);
            assert(s@.take(k as int) =~= s@.take(k - 1 as int).push(s@[k - 1]));
        }
    }
    out.push('"');
    proof {
        assert(s@.take(n as int) =~= s@);
        assert(out@ =~= out0 + ser_string(s@));
    }
}

/// Append `null` or a JSON string literal.
fn push_opt_string(out: &mut Vec<char>, o: &Option<String>)
    ensures
        final(out)@ == old(out)@ + ser_opt_string(view_opt_string(*o)),
{
    match o {
        Option::Some(s) => push_json_string(out, s.as_str()),
        Option::None => push_str_chars(out, "null"),
    }
}

fn dec_char_exec(d: u8) -> (r: char)
    requires
        d < 10,
    ensures
        r == dec_char(d as int),
{
    ((48u8 + d) as char)
}

/// Append the decimal digits of `n`.
fn push_dec_digits(out: &mut Vec<char>, n: u64)
    ensures
        final(out)@ == old(out)@ + dec_digits(n as int),
    decreases n,
{
    if n < 10 {
        out.push(dec_char_exec(n as u8));
    } else {
        push_dec_digits(out, n / 10);
        out.push(dec_char_exec((n % 10) as u8));
    }
}

/// Append a JSON integer for `n`.
fn push_i64(out: &mut Vec<char>, n: i64)
    ensures
        final(out)@ == old(out)@ + ser_i64(n as int),
{
    if n < 0 {
        let ghost out0 = out@;
        out.push('-');
        let mag: u64 = (-(n as i128)) as u64;
        push_dec_digits(out, mag);
        proof {
            assert(mag as int == -(n as int));
            assert(out@ =~= out0 + ser_i64(n as int));
        }
    } else {
        push_dec_digits(out, n as u64);
    }
}

/// Render `n` in decimal, as a JSON integer is written.
pub fn i64_to_string(n: i64) -> (r: String)
    ensures
        r@ == ser_i64(n as int),
{
    let mut out: Vec<char> = Vec::new();
    push_i64(&mut out, n);
    proof {
        assert(out@ =~= ser_i64(n as int));
    }
    chars_to_string(&out)
}

/// Append one activity object.
fn push_activity(out: &mut Vec<char>, a: &Activity)
    ensures
        final(out)@ == old(out)@ + ser_activity(a@),
{
    let ghost out0 = out@;
    push_str_chars(out, "{\n      \"id\": ");
    push_json_string(out, a.id.as_str());
    push_str_chars(out, ",\n      \"action\": ");
    push_json_string(out, a.action.as_str());
    push_str_chars(out, ",\n      \"target\": ");
    push_json_string(out, a.target.as_str());
    push_str_chars(out, ",\n      \"timestamp\": ");
    push_json_string(out, a.timestamp.as_str());
    push_str_chars(out, "\n    }");
    proof {
        assert(out@ =~= out0 + ser_activity(a@));
    }
}

/// Append the activities array.
fn push_activities(out: &mut Vec<char>, acts: &Vec<Activity>)
    ensures
        final(out)@ == old(out)@ + ser_activities(acts@.map_values(|a: Activity| a@)),
{
    let ghost out0 = out@;
    let ghost av = acts@.map_values(|a: Activity| a@);
    if acts.len() == 0 {
        push_str_chars(out, "[]");
        proof {
            assert(out@ =~= out0 + ser_activities(av));
        }
        return ;
    }
    push_str_chars(out, "[\n    ");
    push_activity(out, &acts[0]);
    proof {
        assert(av.take(1) =~= seq![av[0]]);
        assert(ser_activity_items(av.take(1)) == ser_activity(av[0]));
    }
    let mut k: usize = 1;
    while k < acts.len()
        invariant
            1 <= k <= acts.len(),
            av == acts@.map_values(|a: Activity| a@),
            out@ == out0 + "[\n    "@ + ser_activity_items(av.take(k as int)),
        decreases acts.len() - k,
    {
        push_str_chars(out, ",\n    ");
        push_activity(out, &acts[k]);
        k = k + 1;
        proof {
            lemma_ser_items_snoc(av.take(k - 1 as int), av[k - 1]);
            assert(av.take(k as int) =~= av.take(k - 1 as int).push(av[k - 1]));
        }
    }
    push_str_chars(out, "\n  ]");
    proof {
        assert(av.take(acts@.len() as int) =~= av);
        assert(out@ =~= out0 + ser_activities(av));
    }
}

/// Serialize a profile to the characters of its JSON document.
pub fn serialize_profile(p: &Profile) -> (r: Vec<char>)
    ensures
        r@ == ser_profile(p@),
{
    let mut out: Vec<char> = Vec::new();
    push_str_chars(&mut out, "{\n  \"username\": ");
    push_opt_string(&mut out, &p.username);
    push_str_chars(&mut out, ",\n  \"email\": ");
    push_opt_string(&mut out, &p.email);
    push_str_chars(&mut out, ",\n  \"joinDate\": ");
    push_opt_string(&mut out, &p.join_date);
    push_str_chars(&mut out, ",\n  \"totalTime\": ");
    push_i64(&mut out, p.total_time);
    push_str_chars(&mut out, ",\n  \"avatar\": ");
    push_opt_string(&mut out, &p.avatar);
    push_str_chars(&mut out, ",\n  \"signature\": ");
    push_opt_string(&mut out, &p.signature);
    push_str_chars(&mut out, ",\n  \"activities\": ");
    push_activities(&mut out, &p.activities);
    push_str_chars(&mut out, "\n}");
    proof {
        assert(out@ =~= ser_profile(p@));
    }
    out
}

/// Serialize a profile to its JSON document.
pub fn profile_to_json(p: &Profile) -> (r: String)
    ensures
        r@ == ser_profile(p@),
{
    let chars = serialize_profile(p);
    chars_to_string(&chars)
}

// ---------------------------------------------------------------------------
// Parser
// ---------------------------------------------------------------------------
// Each spec parser takes the remaining input and returns the parsed value
// together with the suffix that follows it, or `None` when the input does
// not start with the expected construct.

pub open spec fn skip_ws(s: Seq<char>) -> Seq<char>
    decreases s.len(),
{
    if s.len() > 0 && is_ws(s[0]) {
        skip_ws(s.skip(1))
    } else {
        s
    }
}

/// Expect the punctuation character `c`, allowing whitespace before it.
pub open spec fn parse_sym(s: Seq<char>, c: char) -> Option<Seq<char>> {
    let t = skip_ws(s);
    if t.len() > 0 && t[0] == c {
        Option::Some(t.skip(1))
    } else {
        Option::None
    }
}

/// Parse a string body up to and including the closing quote.
pub open spec fn parse_string_body(s: Seq<char>) -> Option<(Seq<char>, Seq<char>)>
    decreases s.len(),
{
    if s.len() == 0 {
        Option::None
    } else if s[0] == '"' {
        Option::Some((Seq::<char>::empty(), s.skip(1)))
    } else if s[0] == '\\' {
        if s.len() >= 2 && (s[1] == '"' || s[1] == '\\') {
            match parse_string_body(s.skip(2)) {
                Option::Some((v, r)) => Option::Some((seq![s[1]] + v, r)),
                Option::None => Option::None,
            }
        } else if s.len() >= 6 && s[1] == 'u' && s[2] == '0' && s[3] == '0' && is_lower_hex_digit(
            s[4],
        ) && is_lower_hex_digit(s[5]) && hex_val(s[4]) * 16 + hex_val(s[5]) < 32 {
            match parse_string_body(s.skip(6)) {
                Option::Some(
                    (v, r),
                ) => Option::Some(
                    (seq![((hex_val(s[4]) * 16 + hex_val(s[5])) as u8) as char] + v, r),
                ),
                Option::None => Option::None,
            }
        } else {
            Option::None
        }
    } else if (s[0] as int) < 32 {
        Option::None
    } else {
        match parse_string_body(s.skip(1)) {
            Option::Some((v, r)) => Option::Some((seq![s[0]] + v, r)),
            Option::None => Option::None,
        }
    }
}

/// Parse a string literal, allowing whitespace before the opening quote.
pub open spec fn parse_string(s: Seq<char>) -> Option<(Seq<char>, Seq<char>)> {
    match parse_sym(s, '"') {
        Option::Some(t) => parse_string_body(t),
        Option::None => Option::None,
    }
}

/// Parse either `null` or a string literal.
pub open spec fn parse_opt_string(s: Seq<char>) -> Option<(Option<Seq<char>>, Seq<char>)> {
    let t = skip_ws(s);
    if t.len() > 0 && t[0] == '"' {
        match parse_string_body(t.skip(1)) {
            Option::Some((v, r)) => Option::Some((Option::Some(v), r)),
            Option::None => Option::None,
        }
    } else if t.len() >= 4 && t[0] == 'n' && t[1] == 'u' && t[2] == 'l' && t[3] == 'l' {
        Option::Some((Option::None, t.skip(4)))
    } else {
        Option::None
    }
}

/// Accumulate decimal digits from the front of `s` onto `acc`.
pub open spec fn parse_digits(s: Seq<char>, acc: int) -> (int, Seq<char>)
    decreases s.len(),
{
    if s.len() > 0 && is_dec_digit(s[0]) {
        parse_digits(s.skip(1), acc * 10 + dec_val(s[0]))
    } else {
        (acc, s)
    }
}

/// Parse an unsigned decimal integer with no leading zeros.
pub open spec fn parse_uint(s: Seq<char>) -> Option<(int, Seq<char>)> {
    if s.len() == 0 || !is_dec_digit(s[0]) {
        Option::None
    } else if s[0] == '0' {
        if s.len() >= 2 && is_dec_digit(s[1]) {
            Option::None
        } else {
            Option::Some((0, s.skip(1)))
        }
    } else {
        Option::Some(parse_digits(s, 0))
    }
}

/// Parse a JSON integer that fits in a 64-bit signed machine word, allowing
/// whitespace before it.
pub open spec fn parse_i64(s: Seq<char>) -> Option<(int, Seq<char>)> {
    let t = skip_ws(s);
    if t.len() > 0 && t[0] == '-' {
        match parse_uint(t.skip(1)) {
            Option::Some(
                (v, r),
            ) => if -v >= i64::MIN as int {
                Option::Some((-v, r))
            } else {
                Option::None
            },
            Option::None => Option::None,
        }
    } else {
        match parse_uint(t) {
            Option::Some(
                (v, r),
            ) => if v <= i64::MAX as int {
                Option::Some((v, r))
            } else {
                Option::None
            },
            Option::None => Option::None,
        }
    }
}

/// Expect a member key: the given name as a string literal, then a colon.
pub open spec fn parse_key(s: Seq<char>, name: Seq<char>) -> Option<Seq<char>> {
    match parse_string(s) {
        Option::Some(
            (k, r),
        ) => if k == name {
            parse_sym(r, ':')
        } else {
            Option::None
        },
        Option::None => Option::None,
    }
}

/// Parse one activity object.
pub open spec fn parse_activity(s: Seq<char>) -> Option<(ActivityView, Seq<char>)> {
    match parse_sym(s, '{') {
        Option::Some(r0) => match parse_key(r0, "id"@) {
            Option::Some(r1) => match parse_string(r1) {
                Option::Some((id, r2)) => match parse_sym(r2, ',') {
                    Option::Some(r3) => match parse_key(r3, "action"@) {
                        Option::Some(r4) => match parse_string(r4) {
                            Option::Some((action, r5)) => match parse_sym(r5, ',') {
                                Option::Some(r6) => match parse_key(r6, "target"@) {
                                    Option::Some(r7) => match parse_string(r7) {
                                        Option::Some((target, r8)) => match parse_sym(r8, ',') {
                                            Option::Some(r9) => match parse_key(
                                                r9,
                                                "timestamp"@,
                                            ) {
                                                Option::Some(r10) => match parse_string(r10) {
                                                    Option::Some((timestamp, r11)) => match parse_sym(
                                                        r11,
                                                        '}',
                                                    ) {
                                                        Option::Some(
                                                            r12,
                                                        ) => Option::Some(
                                                            (
                                                                ActivityView {
                                                                    id,
                                                                    action,
                                                                    target,
                                                                    timestamp,
                                                                },
                                                                r12,
                                                            ),
                                                        ),
                                                        Option::None => Option::None,
                                                    },
                                                    Option::None => Option::None,
                                                },
                                                Option::None => Option::None,
                                            },
                                            Option::None => Option::None,
                                        },
                                        Option::None => Option::None,
                                    },
                                    Option::None => Option::None,
                                },
                                Option::None => Option::None,
                            },
                            Option::None => Option::None,
                        },
                        Option::None => Option::None,
                    },
                    Option::None => Option::None,
                },
                Option::None => Option::None,
            },
            Option::None => Option::None,
        },
        Option::None => Option::None,
    }
}

/// Parse `, activity` repetitions until the closing bracket.
pub open spec fn parse_more_activities(s: Seq<char>, acc: Seq<ActivityView>) -> Option<
    (Seq<ActivityView>, Seq<char>),
>
    decreases s.len(),
{
    match parse_sym(s, ']') {
        Option::Some(r) => Option::Some((acc, r)),
        Option::None => match parse_sym(s, ',') {
            Option::Some(r0) => match parse_activity(r0) {
                Option::Some(
                    (a, r1),
                ) => if r1.len() < s.len() {
                    parse_more_activities(r1, acc.push(a))
                } else {
                    Option::None
                },
                Option::None => Option::None,
            },
            Option::None => Option::None,
        },
    }
}

/// Parse the activities array.
pub open spec fn parse_activities(s: Seq<char>) -> Option<(Seq<ActivityView>, Seq<char>)> {
    match parse_sym(s, '[') {
        Option::Some(r0) => match parse_sym(r0, ']') {
            Option::Some(r) => Option::Some((Seq::<ActivityView>::empty(), r)),
            Option::None => match parse_activity(r0) {
                Option::Some(
                    (a, r1),
                ) => parse_more_activities(r1, Seq::<ActivityView>::empty().push(a)),
                Option::None => Option::None,
            },
        },
        Option::None => Option::None,
    }
}

/// Parse a complete profile document; everything after the closing brace
/// must be whitespace.
pub open spec fn parse_profile(s: Seq<char>) -> Option<ProfileView> {
    match parse_sym(s, '{') {
        Option::Some(r0) => match parse_key(r0, "username"@) {
            Option::Some(r1) => match parse_opt_string(r1) {
                Option::Some((username, r2)) => match parse_sym(r2, ',') {
                    Option::Some(r3) => match parse_key(r3, "email"@) {
                        Option::Some(r4) => match parse_opt_string(r4) {
                            Option::Some((email, r5)) => match parse_sym(r5, ',') {
                                Option::Some(r6) => match parse_key(r6, "joinDate"@) {
                                    Option::Some(r7) => match parse_opt_string(r7) {
                                        Option::Some((join_date, r8)) => match parse_sym(r8, ',') {
                                            Option::Some(r9) => match parse_key(
                                                r9,
                                                "totalTime"@,
                                            ) {
                                                Option::Some(r10) => match parse_i64(r10) {
                                                    Option::Some(
                                                        (total_time, r11),
                                                    ) => match parse_sym(r11, ',') {
                                                        Option::Some(r12) => match parse_key(
                                                            r12,
                                                            "avatar"@,
                                                        ) {
                                                            Option::Some(r13) => match parse_opt_string(
                                                                r13,
                                                            ) {
                                                                Option::Some(
                                                                    (avatar, r14),
                                                                ) => match parse_sym(r14, ',') {
                                                                    Option::Some(
                                                                        r15,
                                                                    ) => match parse_key(
                                                                        r15,
                                                                        "signature"@,
                                                                    ) {
                                                                        Option::Some(
                                                                            r16,
                                                                        ) => match parse_opt_string(
                                                                            r16,
                                                                        ) {
                                                                            Option::Some(
                                                                                (signature, r17),
                                                                            ) => match parse_sym(
                                                                                r17,
                                                                                ',',
                                                                            ) {
                                                                                Option::Some(
                                                                                    r18,
                                                                                ) => match parse_key(
                                                                                    r18,
                                                                                    "activities"@,
                                                                                ) {
                                                                                    Option::Some(
                                                                                        r19,
                                                                                    ) => match parse_activities(
                                                                                        r19,
                                                                                    ) {
                                                                                        Option::Some(
                                                                                            (
                                                                                                activities,
                                                                                                r20,
                                                                                            ),
                                                                                        ) => match parse_sym(
                                                                                            r20,
                                                                                            '}',
                                                                                        ) {
                                                                                            Option::Some(
                                                                                                r21,
                                                                                            ) => if skip_ws(
                                                                                                r21,
                                                                                            ).len()
                                                                                                == 0 {
                                                                                                Option::Some(
                                                                                                    ProfileView {
                                                                                                        username,
                                                                                                        email,
                                                                                                        join_date,
                                                                                                        total_time,
                                                                                                        avatar,
                                                                                                        signature,
                                                                                                        activities,
                                                                                                    },
                                                                                                )
                                                                                            } else {
                                                                                                Option::None
                                                                                            },
                                                                                            Option::None => Option::None,
                                                                                        },
                                                                                        Option::None => Option::None,
                                                                                    },
                                                                                    Option::None => Option::None,
                                                                                },
                                                                                Option::None => Option::None,
                                                                            },
                                                                            Option::None => Option::None,
                                                                        },
                                                                        Option::None => Option::None,
                                                                    },
                                                                    Option::None => Option::None,
                                                                },
                                                                Option::None => Option::None,
                                                            },
                                                            Option::None => Option::None,
                                                        },
                                                        Option::None => Option::None,
                                                    },
                                                    Option::None => Option::None,
                                                },
                                                Option::None => Option::None,
                                            },
                                            Option::None => Option::None,
                                        },
                                        Option::None => Option::None,
                                    },
                                    Option::None => Option::None,
                                },
                                Option::None => Option::None,
                            },
                            Option::None => Option::None,
                        },
                        Option::None => Option::None,
                    },
                    Option::None => Option::None,
                },
                Option::None => Option::None,
            },
            Option::None => Option::None,
        },
        Option::None => Option::None,
    }
}

// ---------------------------------------------------------------------------
// Executable parser
// ---------------------------------------------------------------------------
// Each function mirrors the spec parser above; an index into the character
// vector stands for the remaining input `s@.skip(i)`.

proof fn lemma_skip_skip(s: Seq<char>, i: int, k: int)
    requires
        0 <= i,
        0 <= k,
        i + k <= s.len(),
    ensures
        s.skip(i).skip(k) == s.skip(i + k),
{
    assert(s.skip(i).skip(k) =~= s.skip(i + k));
}

/// The code point of `c`. Reading a character out of a vector does not
/// carry the `char` range invariant along, while a function parameter does,
/// so casts go through here.
fn char_code(c: char) -> (v: u32)
    ensures
        v as int == c as int,
{
    c as u32
}

fn is_ws_exec(c: char) -> (b: bool)
    ensures
        b == is_ws(c),
{
    c == ' ' || c == '\n' || c == '\r' || c == '\t'
}

fn is_dec_digit_exec(c: char) -> (b: bool)
    ensures
        b == is_dec_digit(c),
{
    let v = c as u32;
    48 <= v && v <= 57
}

/// Advance past whitespace.
fn skip_ws_exec(s: &Vec<char>, i: usize) -> (k: usize)
    requires
        i <= s@.len(),
    ensures
        i <= k <= s@.len(),
        skip_ws(s@.skip(i as int)) == s@.skip(k as int),
        k < s@.len() ==> !is_ws(s@[k as int]),
{
    let mut k: usize = i;
    loop
        invariant
            i <= k <= s@.len(),
            skip_ws(s@.skip(i as int)) == skip_ws(s@.skip(k as int)),
        decreases s@.len() - k,
    {
        if k == s.len() {
            return k;
        }
        let c = s[k];
        if !is_ws_exec(c) {
            return k;
        }
        proof {
            lemma_skip_skip(s@, k as int, 1);
        }
        k = k + 1;
    }
}

/// Expect the punctuation character `c`, allowing whitespace before it.
fn tok(s: &Vec<char>, i: usize, c: char) -> (r: Option<usize>)
    requires
        i <= s@.len(),
        !is_ws(c),
    ensures
        match r {
            Option::None => parse_sym(s@.skip(i as int), c) is None,
            Option::Some(j) => i < j <= s@.len() && parse_sym(s@.skip(i as int), c)
                == Option::Some(s@.skip(j as int)),
        },
{
    let k = skip_ws_exec(s, i);
    if k < s.len() && s[k] == c {
        proof {
            lemma_skip_skip(s@, k as int, 1);
        }
        Option::Some(k + 1)
    } else {
        Option::None
    }
}

/// Parse a string body up to and including the closing quote.
#[verifier::rlimit(60)]
fn pstring_body(s: &Vec<char>, i: usize) -> (r: Option<(Vec<char>, usize)>)
    requires
        i <= s@.len(),
    ensures
        match r {
            Option::None => parse_string_body(s@.skip(i as int)) is None,
            Option::Some((v, j)) => i < j <= s@.len() && parse_string_body(s@.skip(i as int))
                == Option::Some((v@, s@.skip(j as int))),
        },
    decreases s@.len() - i,
{
    if i == s.len() {
        return Option::None;
    }
    let c = s[i];
    if c == '"' {
        proof {
            lemma_skip_skip(s@, i as int, 1);
        }
        return Option::Some((Vec::new(), i + 1));
    }
    if c == '\\' {
        if i + 1 < s.len() && (s[i + 1] == '"' || s[i + 1] == '\\') {
            proof {
                lemma_skip_skip(s@, i as int, 2);
            }
            match pstring_body(s, i + 2) {
                Option::Some((mut v, j)) => {
                    let e = s[i + 1];
                    let ghost v0 = v@;
                    v.insert(0, e);
                    proof {
                        assert(v@ =~= seq![s@[i + 1]] + v0);
                    }
                    return Option::Some((v, j));
                },
                Option::None => {
                    return Option::None;
                },
            }
        } else if s.len() - i > 5 && s[i + 1] == 'u' && s[i + 2] == '0' && s[i + 3] == '0' {
            let h1 = s[i + 4];
            let h2 = s[i + 5];
            let base: u8 = match h1 {
                '0' => 0,
                '1' => 16,
                _ => {
                    proof {
                        assert(is_lower_hex_digit(h1) ==> hex_val(h1) >= 2);
                    }
                    return Option::None;
                },
            };
            let low: u8 = match h2 {
                '0' => 0,
                '1' => 1,
                '2' => 2,
                '3' => 3,
                '4' => 4,
                '5' => 5,
                '6' => 6,
                '7' => 7,
                '8' => 8,
                '9' => 9,
                'a' => 10,
                'b' => 11,
                'c' => 12,
                'd' => 13,
                'e' => 14,
                'f' => 15,
                _ => {
                    proof {
                        assert(!is_lower_hex_digit(h2));
                    }
                    return Option::None;
                },
            };
            let code: u8 = base + low;
            proof {
                assert(base as int == hex_val(h1) * 16);
                assert(low as int == hex_val(h2));
                assert(code as int == hex_val(s@.skip(i as int)[4]) * 16 + hex_val(
                    s@.skip(i as int)[5],
                ));
                assert(code < 32);
                lemma_skip_skip(s@, i as int, 6);
            }
            match pstring_body(s, i + 6) {
                Option::Some((mut v, j)) => {
                    let e = code as char;
                    let ghost v0 = v@;
                    v.insert(0, e);
                    proof {
                        assert(e == ((hex_val(s@.skip(i as int)[4]) * 16 + hex_val(
                            s@.skip(i as int)[5],
                        )) as u8) as char);
                        assert(v@ =~= seq![e] + v0);
                    }
                    return Option::Some((v, j));
                },
                Option::None => {
                    return Option::None;
                },
            }
        } else {
            return Option::None;
        }
    }
    if char_code(c) < 32 {
        return Option::None;
    }
    proof {
        lemma_skip_skip(s@, i as int, 1);
    }
    match pstring_body(s, i + 1) {
        Option::Some((mut v, j)) => {
            let ghost v0 = v@;
            v.insert(0, c);
            proof {
                assert(v@ =~= seq![s@[i as int]] + v0);
            }
            Option::Some((v, j))
        },
        Option::None => Option::None,
    }
}

/// Parse a string literal, allowing whitespace before the opening quote.
fn pstring(s: &Vec<char>, i: usize) -> (r: Option<(String, usize)>)
    requires
        i <= s@.len(),
    ensures
        match r {
            Option::None => parse_string(s@.skip(i as int)) is None,
            Option::Some((v, j)) => i < j <= s@.len() && parse_string(s@.skip(i as int))
                == Option::Some((v@, s@.skip(j as int))),
        },
{
    match tok(s, i, '"') {
        Option::Some(k) => match pstring_body(s, k) {
            Option::Some((v, j)) => Option::Some((chars_to_string(&v), j)),
            Option::None => Option::None,
        },
        Option::None => Option::None,
    }
}

/// Parse either `null` or a string literal.
fn popt_string(s: &Vec<char>, i: usize) -> (r: Option<(Option<String>, usize)>)
    requires
        i <= s@.len(),
    ensures
        match r {
            Option::None => parse_opt_string(s@.skip(i as int)) is None,
            Option::Some((v, j)) => i <= j <= s@.len() && parse_opt_string(s@.skip(i as int))
                == Option::Some((view_opt_string(v), s@.skip(j as int))),
        },
{
    let k = skip_ws_exec(s, i);
    if k < s.len() && s[k] == '"' {
        proof {
            lemma_skip_skip(s@, k as int, 1);
        }
        match pstring_body(s, k + 1) {
            Option::Some((v, j)) => Option::Some((Option::Some(chars_to_string(&v)), j)),
            Option::None => Option::None,
        }
    } else if s.len() - k > 3 && s[k] == 'n' && s[k + 1] == 'u' && s[k + 2] == 'l' && s[k + 3]
        == 'l' {
        proof {
            lemma_skip_skip(s@, k as int, 4);
        }
        Option::Some((Option::None, k + 4))
    } else {
        Option::None
    }
}

proof fn lemma_parse_digits_ge(s: Seq<char>, acc: int)
    requires
        acc >= 0,
    ensures
        parse_digits(s, acc).0 >= acc,
    decreases s.len(),
{
    if s.len() > 0 && is_dec_digit(s[0]) {
        lemma_parse_digits_ge(s.skip(1), acc * 10 + dec_val(s[0]));
    }
}

/// Parse an unsigned decimal integer, giving up once the value exceeds
/// the largest 64-bit signed magnitude.
fn puint(s: &Vec<char>, i: usize) -> (r: Option<(u64, usize)>)
    requires
        i <= s@.len(),
    ensures
        match r {
            Option::None => match parse_uint(s@.skip(i as int)) {
                Option::None => true,
                Option::Some((v, rest)) => v > 0x8000000000000000,
            },
            Option::Some((u, j)) => i < j <= s@.len() && u <= 0x8000000000000000 && parse_uint(
                s@.skip(i as int),
            ) == Option::Some((u as int, s@.skip(j as int))),
        },
{
    if i == s.len() {
        return Option::None;
    }
    let c0 = s[i];
    if !is_dec_digit_exec(c0) {
        return Option::None;
    }
    if c0 == '0' {
        if i + 1 < s.len() && is_dec_digit_exec(s[i + 1]) {
            return Option::None;
        }
        proof {
            lemma_skip_skip(s@, i as int, 1);
        }
        return Option::Some((0, i + 1));
    }
    let mut acc: u64 = 0;
    let mut k: usize = i;
    loop
        invariant
            i <= k <= s@.len(),
            acc <= 0x8000000000000000,
            i < s@.len() && is_dec_digit(s@[i as int]) && s@[i as int] != '0',
            parse_digits(s@.skip(i as int), 0) == parse_digits(s@.skip(k as int), acc as int),
        decreases s@.len() - k,
    {
        if k == s.len() {
            return Option::Some((acc, k));
        }
        let c = s[k];
        if !is_dec_digit_exec(c) {
            if k == i {
                proof {
                    assert(false);
                }
            }
            return Option::Some((acc, k));
        }
        let d: u64 = (char_code(c) - 48) as u64;
        let wide: u128 = (acc as u128) * 10 + (d as u128);
        proof {
            lemma_skip_skip(s@, k as int, 1);
            assert(parse_digits(s@.skip(k as int), acc as int) == parse_digits(
                s@.skip(k + 1),
                acc as int * 10 + dec_val(s@[k as int]),
            ));
        }
        if wide > 0x8000000000000000u128 {
            proof {
                lemma_parse_digits_ge(s@.skip(k + 1), acc as int * 10 + dec_val(s@[k as int]));
            }
            return Option::None;
        }
        acc = wide as u64;
        k = k + 1;
    }
}

/// Parse a JSON integer into a 64-bit signed machine word.
fn pi64(s: &Vec<char>, i: usize) -> (r: Option<(i64, usize)>)
    requires
        i <= s@.len(),
    ensures
        match r {
            Option::None => parse_i64(s@.skip(i as int)) is None,
            Option::Some((n, j)) => i < j <= s@.len() && parse_i64(s@.skip(i as int))
                == Option::Some((n as int, s@.skip(j as int))),
        },
{
    let k = skip_ws_exec(s, i);
    if k < s.len() && s[k] == '-' {
        proof {
            lemma_skip_skip(s@, k as int, 1);
        }
        match puint(s, k + 1) {
            Option::Some((u, j)) => {
                let n: i64 = if u == 0x8000000000000000u64 {
                    i64::MIN
                } else {
                    -(u as i64)
                };
                Option::Some((n, j))
            },
            Option::None => Option::None,
        }
    } else {
        match puint(s, k) {
            Option::Some((u, j)) => {
                if u <= 0x7fffffffffffffffu64 {
                    Option::Some((u as i64, j))
                } else {
                    Option::None
                }
            },
            Option::None => Option::None,
        }
    }
}

/// Expect a member key: `name` as a string literal, then a colon.
fn pkey(s: &Vec<char>, i: usize, name: &str) -> (r: Option<usize>)
    requires
        i <= s@.len(),
    ensures
        match r {
            Option::None => parse_key(s@.skip(i as int), name@) is None,
            Option::Some(j) => i < j <= s@.len() && parse_key(s@.skip(i as int), name@)
                == Option::Some(s@.skip(j as int)),
        },
{
    match pstring(s, i) {
        Option::Some((k_str, j)) => {
            let expected = String::from_str(name);
            if k_str == expected {
                tok(s, j, ':')
            } else {
                Option::None
            }
        },
        Option::None => Option::None,
    }
}

/// Parse one activity object.
fn pactivity(s: &Vec<char>, i: usize) -> (r: Option<(Activity, usize)>)
    requires
        i <= s@.len(),
    ensures
        match r {
            Option::None => parse_activity(s@.skip(i as int)) is None,
            Option::Some((a, j)) => i < j <= s@.len() && parse_activity(s@.skip(i as int))
                == Option::Some((a@, s@.skip(j as int))),
        },
{
    let r0 = match tok(s, i, '{') {
        Option::Some(j) => j,
        Option::None => {
            return Option::None;
        },
    };
    let r1 = match pkey(s, r0, "id") {
        Option::Some(j) => j,
        Option::None => {
            return Option::None;
        },
    };
    let (id, r2) = match pstring(s, r1) {
        Option::Some(p) => p,
        Option::None => {
            return Option::None;
        },
    };
    let r3 = match tok(s, r2, ',') {
        Option::Some(j) => j,
        Option::None => {
            return Option::None;
        },
    };
    let r4 = match pkey(s, r3, "action") {
        Option::Some(j) => j,
        Option::None => {
            return Option::None;
        },
    };
    let (action, r5) = match pstring(s, r4) {
        Option::Some(p) => p,
        Option::None => {
            return Option::None;
        },
    };
    let r6 = match tok(s, r5, ',') {
        Option::Some(j) => j,
        Option::None => {
            return Option::None;
        },
    };
    let r7 = match pkey(s, r6, "target") {
        Option::Some(j) => j,
        Option::None => {
            return Option::None;
        },
    };
    let (target, r8) = match pstring(s, r7) {
        Option::Some(p) => p,
        Option::None => {
            return Option::None;
        },
    };
    let r9 = match tok(s, r8, ',') {
        Option::Some(j) => j,
        Option::None => {
            return Option::None;
        },
    };
    let r10 = match pkey(s, r9, "timestamp") {
        Option::Some(j) => j,
        Option::None => {
            return Option::None;
        },
    };
    let (timestamp, r11) = match pstring(s, r10) {
        Option::Some(p) => p,
        Option::None => {
            return Option::None;
        },
    };
    let r12 = match tok(s, r11, '}') {
        Option::Some(j) => j,
        Option::None => {
            return Option::None;
        },
    };
    Option::Some((Activity { id, action, target, timestamp }, r12))
}

/// Parse the activities array.
fn pactivities(s: &Vec<char>, i: usize) -> (r: Option<(Vec<Activity>, usize)>)
    requires
        i <= s@.len(),
    ensures
        match r {
            Option::None => parse_activities(s@.skip(i as int)) is None,
            Option::Some((v, j)) => i < j <= s@.len() && parse_activities(s@.skip(i as int))
                == Option::Some((v@.map_values(|a: Activity| a@), s@.skip(j as int))),
        },
{
    let r0 = match tok(s, i, '[') {
        Option::Some(j) => j,
        Option::None => {
            return Option::None;
        },
    };
    match tok(s, r0, ']') {
        Option::Some(j) => {
            let empty: Vec<Activity> = Vec::new();
            proof {
                assert(empty@.map_values(|a: Activity| a@) =~= Seq::<ActivityView>::empty());
            }
            return Option::Some((empty, j));
        },
        Option::None => {},
    }
    let (a0, r1) = match pactivity(s, r0) {
        Option::Some(p) => p,
        Option::None => {
            return Option::None;
        },
    };
    let mut acc: Vec<Activity> = Vec::new();
    acc.push(a0);
    proof {
        assert(acc@.map_values(|a: Activity| a@) =~= Seq::<ActivityView>::empty().push(a0@));
    }
    let mut k: usize = r1;
    loop
        invariant
            i < k <= s@.len(),
            parse_activities(s@.skip(i as int)) matches Option::Some(q) ==> true,
            match parse_more_activities(s@.skip(k as int), acc@.map_values(|a: Activity| a@)) {
                Option::None => parse_activities(s@.skip(i as int)) is None,
                Option::Some(q) => parse_activities(s@.skip(i as int)) == Option::Some(q),
            },
        decreases s@.len() - k,
    {
        match tok(s, k, ']') {
            Option::Some(j) => {
                return Option::Some((acc, j));
            },
            Option::None => {},
        }
        let kc = match tok(s, k, ',') {
            Option::Some(j) => j,
            Option::None => {
                return Option::None;
            },
        };
        let (a2, k2) = match pactivity(s, kc) {
            Option::Some(p) => p,
            Option::None => {
                return Option::None;
            },
        };
        proof {
            assert(s@.skip(k2 as int).len() < s@.skip(k as int).len());
            assert(acc@.push(a2).map_values(|a: Activity| a@) =~= acc@.map_values(
                |a: Activity| a@,
            ).push(a2@));
        }
        acc.push(a2);
        k = k2;
    }
}

/// Parse a complete profile document from its characters.
#[verifier::rlimit(60)]
fn pprofile(s: &Vec<char>) -> (r: Option<Profile>)
    ensures
        match r {
            Option::None => parse_profile(s@) is None,
            Option::Some(p) => parse_profile(s@) == Option::Some(p@),
        },
{
    proof {
        assert(s@.skip(0) =~= s@);
    }
    let r0 = match tok(s, 0, '{') {
        Option::Some(j) => j,
        Option::None => {
            return Option::None;
        },
    };
    let r1 = match pkey(s, r0, "username") {
        Option::Some(j) => j,
        Option::None => {
            return Option::None;
        },
    };
    let (username, r2) = match popt_string(s, r1) {
        Option::Some(p) => p,
        Option::None => {
            return Option::None;
        },
    };
    let r3 = match tok(s, r2, ',') {
        Option::Some(j) => j,
        Option::None => {
            return Option::None;
        },
    };
    let r4 = match pkey(s, r3, "email") {
        Option::Some(j) => j,
        Option::None => {
            return Option::None;
        },
    };
    let (email, r5) = match popt_string(s, r4) {
        Option::Some(p) => p,
        Option::None => {
            return Option::None;
        },
    };
    let r6 = match tok(s, r5, ',') {
        Option::Some(j) => j,
        Option::None => {
            return Option::None;
        },
    };
    let r7 = match pkey(s, r6, "joinDate") {
        Option::Some(j) => j,
        Option::None => {
            return Option::None;
        },
    };
    let (join_date, r8) = match popt_string(s, r7) {
        Option::Some(p) => p,
        Option::None => {
            return Option::None;
        },
    };
    let r9 = match tok(s, r8, ',') {
        Option::Some(j) => j,
        Option::None => {
            return Option::None;
        },
    };
    let r10 = match pkey(s, r9, "totalTime") {
        Option::Some(j) => j,
        Option::None => {
            return Option::None;
        },
    };
    let (total_time, r11) = match pi64(s, r10) {
        Option::Some(p) => p,
        Option::None => {
            return Option::None;
        },
    };
    let r12 = match tok(s, r11, ',') {
        Option::Some(j) => j,
        Option::None => {
            return Option::None;
        },
    };
    let r13 = match pkey(s, r12, "avatar") {
        Option::Some(j) => j,
        Option::None => {
            return Option::None;
        },
    };
    let (avatar, r14) = match popt_string(s, r13) {
        Option::Some(p) => p,
        Option::None => {
            return Option::None;
        },
    };
    let r15 = match tok(s, r14, ',') {
        Option::Some(j) => j,
        Option::None => {
            return Option::None;
        },
    };
    let r16 = match pkey(s, r15, "signature") {
        Option::Some(j) => j,
        Option::None => {
            return Option::None;
        },
    };
    let (signature, r17) = match popt_string(s, r16) {
        Option::Some(p) => p,
        Option::None => {
            return Option::None;
        },
    };
    let r18 = match tok(s, r17, ',') {
        Option::Some(j) => j,
        Option::None => {
            return Option::None;
        },
    };
    let r19 = match pkey(s, r18, "activities") {
        Option::Some(j) => j,
        Option::None => {
            return Option::None;
        },
    };
    let (activities, r20) = match pactivities(s, r19) {
        Option::Some(p) => p,
        Option::None => {
            return Option::None;
        },
    };
    let r21 = match tok(s, r20, '}') {
        Option::Some(j) => j,
        Option::None => {
            return Option::None;
        },
    };
    let r22 = skip_ws_exec(s, r21);
    if r22 < s.len() {
        return Option::None;
    }
    Option::Some(
        Profile { username, email, join_date, total_time, avatar, signature, activities },
    )
}

/// Parse a profile from the text of its JSON document. Any deviation from
/// the document shape yields `None`.
pub fn json_to_profile(s: &str) -> (r: Option<Profile>)
    ensures
        match r {
            Option::None => parse_profile(s@) is None,
            Option::Some(p) => parse_profile(s@) == Option::Some(p@),
        },
{
    let mut cs: Vec<char> = Vec::new();
    push_str_chars(&mut cs, s);
    pprofile(&cs)
}

// ---------------------------------------------------------------------------
// Round trip: the parser inverts the serializer
// ---------------------------------------------------------------------------

pub open spec fn all_ws(w: Seq<char>) -> bool {
    forall|k: int| 0 <= k < w.len() ==> is_ws(w[k])
}

pub open spec fn all_plain(s: Seq<char>) -> bool {
    forall|k: int|
        0 <= k < s.len() ==> (s[k] != '"' && s[k] != '\\' && (s[k] as int) >= 32)
}

proof fn lemma_skip_ws_prefix(w: Seq<char>, rest: Seq<char>)
    requires
        all_ws(w),
    ensures
        skip_ws(w + rest) == skip_ws(rest),
    decreases w.len(),
{
    if w.len() == 0 {
        assert(w + rest =~= rest);
    } else {
        assert((w + rest)[0] == w[0]);
        assert((w + rest).skip(1) =~= w.skip(1) + rest);
        assert(all_ws(w.skip(1)));
        lemma_skip_ws_prefix(w.skip(1), rest);
    }
}

proof fn lemma_parse_sym_exact(w: Seq<char>, c: char, rest: Seq<char>)
    requires
        all_ws(w),
        !is_ws(c),
    ensures
        parse_sym(w + seq![c] + rest, c) == Option::Some(rest),
{
    assert(w + seq![c] + rest =~= w + (seq![c] + rest));
    lemma_skip_ws_prefix(w, seq![c] + rest);
    assert((seq![c] + rest)[0] == c);
    assert(skip_ws(seq![c] + rest) == seq![c] + rest);
    assert((seq![c] + rest).skip(1) =~= rest);
}

proof fn lemma_ser_body_plain(s: Seq<char>)
    requires
        all_plain(s),
    ensures
        ser_string_body(s) == s,
    decreases s.len(),
{
    if s.len() == 0 {
        assert(ser_string_body(s) =~= s);
    } else {
        assert(escape_char(s[0]) == seq![s[0]]);
        assert(all_plain(s.skip(1)));
        lemma_ser_body_plain(s.skip(1));
        assert(ser_string_body(s) =~= s);
    }
}

/// A character's code point lies in the Unicode scalar range. Stated over
/// a parameter because a character taken out of a sequence does not carry
/// the range fact along.
proof fn lemma_char_bounds(c: char)
    ensures
        0 <= c as int <= 0x10FFFF,
{
    assert(0 <= c as int <= 0x10FFFF) by {
        vstd::utf8::char_is_scalar(c);
        vstd::utf8::char_u32_cast(c, c as u32);
    }
}

proof fn lemma_hex_char_val(d: int)
    requires
        0 <= d < 16,
    ensures
        is_lower_hex_digit(hex_char(d)),
        hex_val(hex_char(d)) == d,
    decreases d,
{
    if d < 10 {
        assert(hex_char(d) as int == 48 + d);
    } else {
        assert(hex_char(d) as int == 97 + d - 10);
    }
}

proof fn lemma_psb_inverts(v: Seq<char>, rest: Seq<char>)
    ensures
        parse_string_body(ser_string_body(v) + seq!['"'] + rest) == Option::Some((v, rest)),
    decreases v.len(),
{
    let s = ser_string_body(v) + seq!['"'] + rest;
    if v.len() == 0 {
        assert(s =~= seq!['"'] + rest);
        assert(s[0] == '"');
        assert(s.skip(1) =~= rest);
        assert(parse_string_body(s) == Option::Some((Seq::<char>::empty(), rest)));
        assert(Seq::<char>::empty() =~= v);
    } else {
        let c = v[0];
        let e = escape_char(c);
        let tail = ser_string_body(v.skip(1)) + seq!['"'] + rest;
        assert(ser_string_body(v) == e + ser_string_body(v.skip(1)));
        assert(s =~= e + tail);
        lemma_psb_inverts(v.skip(1), rest);
        if c == '"' {
            assert(s[0] == '\\' && s[1] == '"');
            assert(s.skip(2) =~= tail);
            assert(parse_string_body(s) == Option::Some((seq![s[1]] + v.skip(1), rest)));
            assert(seq![s[1]] + v.skip(1) =~= v);
        } else if c == '\\' {
            assert(s[0] == '\\' && s[1] == '\\');
            assert(s.skip(2) =~= tail);
            assert(parse_string_body(s) == Option::Some((seq![s[1]] + v.skip(1), rest)));
            assert(seq![s[1]] + v.skip(1) =~= v);
        } else if (c as int) < 32 {
            lemma_char_bounds(c);
            let hi = c as int / 16;
            let lo = c as int % 16;
            lemma_hex_char_val(hi);
            lemma_hex_char_val(lo);
            assert(s[0] == '\\' && s[1] == 'u' && s[2] == '0' && s[3] == '0');
            assert(s[4] == hex_char(hi) && s[5] == hex_char(lo));
            assert(hex_val(s[4]) * 16 + hex_val(s[5]) == c as int);
            assert(s.skip(6) =~= tail);
            assert(((hex_val(s[4]) * 16 + hex_val(s[5])) as u8) as char == c);
            assert(parse_string_body(s) == Option::Some((seq![c] + v.skip(1), rest)));
            assert(seq![c] + v.skip(1) =~= v);
        } else {
            assert(e == seq![c]);
            assert(s[0] == c);
            assert(s.skip(1) =~= tail);
            assert(parse_string_body(s) == Option::Some((seq![c] + v.skip(1), rest)));
            assert(seq![c] + v.skip(1) =~= v);
        }
    }
}

proof fn lemma_parse_string_exact(v: Seq<char>, w: Seq<char>, rest: Seq<char>)
    requires
        all_ws(w),
    ensures
        parse_string(w + ser_string(v) + rest) == Option::Some((v, rest)),
{
    let tail = ser_string_body(v) + seq!['"'] + rest;
    assert(w + ser_string(v) + rest =~= w + seq!['"'] + tail);
    lemma_parse_sym_exact(w, '"', tail);
    lemma_psb_inverts(v, rest);
}

proof fn lemma_parse_opt_string_exact(o: Option<Seq<char>>, w: Seq<char>, rest: Seq<char>)
    requires
        all_ws(w),
    ensures
        parse_opt_string(w + ser_opt_string(o) + rest) == Option::Some((o, rest)),
{
    match o {
        Option::Some(v) => {
            let tail = ser_string_body(v) + seq!['"'] + rest;
            let x = seq!['"'] + tail;
            assert(w + ser_opt_string(o) + rest =~= w + x);
            lemma_skip_ws_prefix(w, x);
            assert(x[0] == '"');
            assert(skip_ws(x) == x);
            assert(x.skip(1) =~= tail);
            lemma_psb_inverts(v, rest);
        },
        Option::None => {
            reveal_strlit("null");
            let x = "null"@ + rest;
            assert(w + ser_opt_string(o) + rest =~= w + x);
            lemma_skip_ws_prefix(w, x);
            assert(x[0] == 'n' && x[1] == 'u' && x[2] == 'l' && x[3] == 'l');
            assert(skip_ws(x) == x);
            assert(x.skip(4) =~= rest);
        },
    }
}

proof fn lemma_parse_key_exact(name: Seq<char>, w: Seq<char>, rest: Seq<char>)
    requires
        all_ws(w),
        all_plain(name),
    ensures
        parse_key(w + ser_string(name) + seq![':'] + rest, name) == Option::Some(rest),
{
    let s = w + ser_string(name) + seq![':'] + rest;
    assert(s =~= w + ser_string(name) + (seq![':'] + rest));
    lemma_parse_string_exact(name, w, seq![':'] + rest);
    assert(Seq::<char>::empty() + seq![':'] + rest =~= seq![':'] + rest);
    lemma_parse_sym_exact(Seq::<char>::empty(), ':', rest);
}

proof fn lemma_dec_char_val(d: int)
    requires
        0 <= d < 10,
    ensures
        is_dec_digit(dec_char(d)),
        dec_val(dec_char(d)) == d,
        !is_ws(dec_char(d)),
        d >= 1 ==> dec_char(d) != '0',
        d == 0 ==> dec_char(d) == '0',
{
    assert(dec_char(d) as int == 48 + d);
}

proof fn lemma_dec_digits_props(n: int)
    requires
        n >= 0,
    ensures
        dec_digits(n).len() >= 1,
        forall|k: int| 0 <= k < dec_digits(n).len() ==> is_dec_digit(#[trigger] dec_digits(n)[k]),
        n >= 1 ==> dec_digits(n)[0] != '0',
        n == 0 ==> dec_digits(n) == seq!['0'],
        !is_ws(dec_digits(n)[0]),
    decreases n,
{
    if n < 10 {
        lemma_dec_char_val(n);
    } else {
        lemma_dec_digits_props(n / 10);
        lemma_dec_char_val(n % 10);
        assert(dec_digits(n)[0] == dec_digits(n / 10)[0]);
        assert(forall|k: int|
            0 <= k < dec_digits(n).len() ==> is_dec_digit(#[trigger] dec_digits(n)[k]));
    }
}

proof fn lemma_parse_digits_concat(ds: Seq<char>, rest: Seq<char>, acc: int)
    requires
        forall|k: int| 0 <= k < ds.len() ==> is_dec_digit(#[trigger] ds[k]),
        rest.len() == 0 || !is_dec_digit(rest[0]),
    ensures
        parse_digits(ds + rest, acc) == (parse_digits(ds, acc).0, rest),
    decreases ds.len(),
{
    if ds.len() == 0 {
        assert(ds + rest =~= rest);
    } else {
        assert((ds + rest)[0] == ds[0]);
        assert((ds + rest).skip(1) =~= ds.skip(1) + rest);
        lemma_parse_digits_concat(ds.skip(1), rest, acc * 10 + dec_val(ds[0]));
    }
}

proof fn lemma_parse_digits_snoc(ds: Seq<char>, d: int, acc: int)
    requires
        forall|k: int| 0 <= k < ds.len() ==> is_dec_digit(#[trigger] ds[k]),
        0 <= d < 10,
    ensures
        parse_digits(ds.push(dec_char(d)), acc).0 == parse_digits(ds, acc).0 * 10 + d,
    decreases ds.len(),
{
    lemma_dec_char_val(d);
    if ds.len() == 0 {
        assert(ds.push(dec_char(d)) =~= seq![dec_char(d)]);
        assert(seq![dec_char(d)].skip(1) =~= Seq::<char>::empty());
        assert(parse_digits(Seq::<char>::empty(), acc * 10 + d) == (
            acc * 10 + d,
            Seq::<char>::empty(),
        ));
        assert(parse_digits(ds.push(dec_char(d)), acc) == (acc * 10 + d, Seq::<char>::empty()));
        assert(parse_digits(ds, acc) == (acc, ds));
    } else {
        assert(ds.push(dec_char(d))[0] == ds[0]);
        assert(ds.push(dec_char(d)).skip(1) =~= ds.skip(1).push(dec_char(d)));
        lemma_parse_digits_snoc(ds.skip(1), d, acc * 10 + dec_val(ds[0]));
        assert(parse_digits(ds, acc) == parse_digits(ds.skip(1), acc * 10 + dec_val(ds[0])));
        assert(parse_digits(ds.push(dec_char(d)), acc) == parse_digits(
            ds.skip(1).push(dec_char(d)),
            acc * 10 + dec_val(ds[0]),
        ));
    }
}

proof fn lemma_dec_digits_value(n: int)
    requires
        n >= 0,
    ensures
        parse_digits(dec_digits(n), 0).0 == n,
    decreases n,
{
    lemma_dec_digits_props(n);
    if n < 10 {
        lemma_dec_char_val(n);
        assert(seq![dec_char(n)].skip(1) =~= Seq::<char>::empty());
        assert(dec_digits(n) == seq![dec_char(n)]);
        assert(parse_digits(Seq::<char>::empty(), 0 * 10 + dec_val(dec_char(n))) == (
            n,
            Seq::<char>::empty(),
        ));
        assert(parse_digits(dec_digits(n), 0) == (n, Seq::<char>::empty()));
    } else {
        lemma_dec_digits_value(n / 10);
        lemma_dec_digits_props(n / 10);
        lemma_dec_char_val(n % 10);
        assert(dec_digits(n) =~= dec_digits(n / 10).push(dec_char(n % 10)));
        lemma_parse_digits_snoc(dec_digits(n / 10), n % 10, 0);
        vstd::arithmetic::div_mod::lemma_fundamental_div_mod(n, 10);
        assert(parse_digits(dec_digits(n), 0).0 == (n / 10) * 10 + n % 10);
    }
}

proof fn lemma_parse_i64_exact(n: int, w: Seq<char>, rest: Seq<char>)
    requires
        i64::MIN <= n <= i64::MAX,
        all_ws(w),
        rest.len() == 0 || !is_dec_digit(rest[0]),
    ensures
        parse_i64(w + ser_i64(n) + rest) == Option::Some((n, rest)),
{
    if n < 0 {
        let m = -n;
        lemma_dec_digits_props(m);
        lemma_dec_digits_value(m);
        lemma_parse_digits_concat(dec_digits(m), rest, 0);
        let x = seq!['-'] + (dec_digits(m) + rest);
        assert(w + ser_i64(n) + rest =~= w + x);
        lemma_skip_ws_prefix(w, x);
        assert(x[0] == '-');
        assert(skip_ws(x) == x);
        assert(x.skip(1) =~= dec_digits(m) + rest);
        assert((dec_digits(m) + rest)[0] == dec_digits(m)[0]);
        assert(parse_uint(dec_digits(m) + rest) == Option::Some((m, rest)));
    } else {
        lemma_dec_digits_props(n);
        lemma_dec_digits_value(n);
        lemma_parse_digits_concat(dec_digits(n), rest, 0);
        let x = dec_digits(n) + rest;
        assert(w + ser_i64(n) + rest =~= w + x);
        lemma_skip_ws_prefix(w, x);
        assert(x[0] == dec_digits(n)[0]);
        assert(skip_ws(x) == x);
        if n == 0 {
            assert(x[0] == '0');
            assert(x.skip(1) =~= rest);
            assert(parse_uint(x) == Option::Some((0int, rest)));
        } else {
            assert(x[0] != '0' && is_dec_digit(x[0]));
            assert(parse_uint(x) == Option::Some((n, rest)));
        }
    }
}

#[verifier::rlimit(100)]
proof fn lemma_parse_activity_exact(a: ActivityView, w: Seq<char>, rest: Seq<char>)
    requires
        all_ws(w),
    ensures
        parse_activity(w + ser_activity(a) + rest) == Option::Some((a, rest)),
{
    reveal_strlit("{\n      \"id\": ");
    reveal_strlit(",\n      \"action\": ");
    reveal_strlit(",\n      \"target\": ");
    reveal_strlit(",\n      \"timestamp\": ");
    reveal_strlit("\n    }");
    reveal_strlit("\n      ");
    reveal_strlit("id");
    reveal_strlit("action");
    reveal_strlit("target");
    reveal_strlit("timestamp");
    assert(all_plain("id"@));
    assert(all_plain("action"@));
    assert(all_plain("target"@));
    assert(all_plain("timestamp"@));
    lemma_ser_body_plain("id"@);
    lemma_ser_body_plain("action"@);
    lemma_ser_body_plain("target"@);
    lemma_ser_body_plain("timestamp"@);
    reveal_strlit("\n    ");
    assert(all_ws("\n      "@));
    assert(all_ws("\n    "@));

    assert("{\n      \"id\": "@ =~= seq!['{'] + "\n      "@ + ser_string("id"@) + seq![':']
        + seq![' ']);
    assert(",\n      \"action\": "@ =~= seq![','] + "\n      "@ + ser_string("action"@)
        + seq![':'] + seq![' ']);
    assert(",\n      \"target\": "@ =~= seq![','] + "\n      "@ + ser_string("target"@)
        + seq![':'] + seq![' ']);
    assert(",\n      \"timestamp\": "@ =~= seq![','] + "\n      "@ + ser_string("timestamp"@)
        + seq![':'] + seq![' ']);
    assert("\n    }"@ =~= "\n    "@ + seq!['}']);

    let s = w + ser_activity(a) + rest;
    let t9 = "\n    "@ + seq!['}'] + rest;
    let t8 = seq![' '] + ser_string(a.timestamp) + t9;
    let t7 = "\n      "@ + ser_string("timestamp"@) + seq![':'] + t8;
    let t6 = seq![' '] + ser_string(a.target) + (seq![','] + t7);
    let t5 = "\n      "@ + ser_string("target"@) + seq![':'] + t6;
    let t4 = seq![' '] + ser_string(a.action) + (seq![','] + t5);
    let t3 = "\n      "@ + ser_string("action"@) + seq![':'] + t4;
    let t2 = seq![' '] + ser_string(a.id) + (seq![','] + t3);
    let t1 = "\n      "@ + ser_string("id"@) + seq![':'] + t2;

    assert(s =~= w + seq!['{'] + t1);
    lemma_parse_sym_exact(w, '{', t1);
    lemma_parse_key_exact("id"@, "\n      "@, t2);
    lemma_parse_string_exact(a.id, seq![' '], seq![','] + t3);
    assert(Seq::<char>::empty() + seq![','] + t3 =~= seq![','] + t3);
    lemma_parse_sym_exact(Seq::<char>::empty(), ',', t3);
    lemma_parse_key_exact("action"@, "\n      "@, t4);
    lemma_parse_string_exact(a.action, seq![' '], seq![','] + t5);
    assert(Seq::<char>::empty() + seq![','] + t5 =~= seq![','] + t5);
    lemma_parse_sym_exact(Seq::<char>::empty(), ',', t5);
    lemma_parse_key_exact("target"@, "\n      "@, t6);
    lemma_parse_string_exact(a.target, seq![' '], seq![','] + t7);
    assert(Seq::<char>::empty() + seq![','] + t7 =~= seq![','] + t7);
    lemma_parse_sym_exact(Seq::<char>::empty(), ',', t7);
    lemma_parse_key_exact("timestamp"@, "\n      "@, t8);
    lemma_parse_string_exact(a.timestamp, seq![' '], t9);
    lemma_parse_sym_exact("\n    "@, '}', rest);
    assert(parse_activity(s) matches Option::Some((b, r)) && r == rest && b =~~= a);
}

/// The activity objects after the first, each preceded by the separator.
spec fn sep_items(acts: Seq<ActivityView>) -> Seq<char>
    decreases acts.len(),
{
    if acts.len() == 0 {
        Seq::<char>::empty()
    } else {
        ",\n    "@ + ser_activity(acts[0]) + sep_items(acts.skip(1))
    }
}

proof fn lemma_items_sep(acts: Seq<ActivityView>)
    requires
        acts.len() >= 1,
    ensures
        ser_activity_items(acts) == ser_activity(acts[0]) + sep_items(acts.skip(1)),
    decreases acts.len(),
{
    if acts.len() == 1 {
        assert(sep_items(acts.skip(1)) =~= Seq::<char>::empty());
        assert(ser_activity_items(acts) =~= ser_activity(acts[0]) + sep_items(acts.skip(1)));
    } else {
        lemma_items_sep(acts.skip(1));
        assert(acts.skip(1)[0] == acts[1]);
        assert(acts.skip(1).skip(1) =~= acts.skip(2));
        assert(ser_activity_items(acts) =~= ser_activity(acts[0]) + sep_items(acts.skip(1)));
    }
}

proof fn lemma_parse_more_exact(acts: Seq<ActivityView>, acc: Seq<ActivityView>, rest: Seq<char>)
    ensures
        parse_more_activities(sep_items(acts) + "\n  ]"@ + rest, acc) == Option::Some(
            (acc + acts, rest),
        ),
    decreases acts.len(),
{
    reveal_strlit("\n  ]");
    reveal_strlit("\n  ");
    reveal_strlit(",\n    ");
    reveal_strlit("\n    ");
    assert(all_ws("\n  "@));
    assert(all_ws("\n    "@));
    if acts.len() == 0 {
        let s = sep_items(acts) + "\n  ]"@ + rest;
        assert(s =~= "\n  "@ + seq![']'] + rest);
        lemma_parse_sym_exact("\n  "@, ']', rest);
        assert(acc + acts =~= acc);
    } else {
        let tail = sep_items(acts.skip(1)) + "\n  ]"@ + rest;
        let s1 = "\n    "@ + ser_activity(acts[0]) + tail;
        let s = sep_items(acts) + "\n  ]"@ + rest;
        assert(s =~= seq![','] + s1);
        assert(s[0] == ',');
        assert(skip_ws(s) == s);
        assert(parse_sym(s, ']') is None);
        assert(Seq::<char>::empty() + seq![','] + s1 =~= seq![','] + s1);
        lemma_parse_sym_exact(Seq::<char>::empty(), ',', s1);
        lemma_parse_activity_exact(acts[0], "\n    "@, tail);
        assert(tail.len() < s.len());
        lemma_parse_more_exact(acts.skip(1), acc.push(acts[0]), rest);
        assert(acc.push(acts[0]) + acts.skip(1) =~= acc + acts);
    }
}

proof fn lemma_parse_activities_exact(acts: Seq<ActivityView>, w: Seq<char>, rest: Seq<char>)
    requires
        all_ws(w),
    ensures
        parse_activities(w + ser_activities(acts) + rest) == Option::Some((acts, rest)),
{
    reveal_strlit("[]");
    reveal_strlit("[\n    ");
    reveal_strlit("\n    ");
    reveal_strlit("\n  ]");
    assert(all_ws("\n    "@));
    if acts.len() == 0 {
        let s = w + ser_activities(acts) + rest;
        assert(s =~= w + seq!['['] + (seq![']'] + rest));
        lemma_parse_sym_exact(w, '[', seq![']'] + rest);
        assert(Seq::<char>::empty() + seq![']'] + rest =~= seq![']'] + rest);
        lemma_parse_sym_exact(Seq::<char>::empty(), ']', rest);
        assert(acts =~= Seq::<ActivityView>::empty());
    } else {
        lemma_items_sep(acts);
        let tail = sep_items(acts.skip(1)) + "\n  ]"@ + rest;
        let s0 = "\n    "@ + ser_activity(acts[0]) + tail;
        let s = w + ser_activities(acts) + rest;
        assert(s =~= w + seq!['['] + s0);
        lemma_parse_sym_exact(w, '[', s0);
        reveal_strlit("{\n      \"id\": ");
        assert(ser_activity(acts[0])[0] == '{');
        assert(s0 =~= "\n    "@ + (ser_activity(acts[0]) + tail));
        lemma_skip_ws_prefix("\n    "@, ser_activity(acts[0]) + tail);
        assert((ser_activity(acts[0]) + tail)[0] == '{');
        assert(skip_ws(ser_activity(acts[0]) + tail) == ser_activity(acts[0]) + tail);
        assert(parse_sym(s0, ']') is None);
        lemma_parse_activity_exact(acts[0], "\n    "@, tail);
        lemma_parse_more_exact(acts.skip(1), Seq::<ActivityView>::empty().push(acts[0]), rest);
        assert(Seq::<ActivityView>::empty().push(acts[0]) + acts.skip(1) =~= acts);
    }
}

/// A parsed profile's `totalTime` fits a 64-bit signed machine word: the
/// number parser rejects anything larger.
#[verifier::rlimit(100)]
pub proof fn lemma_parse_total_time_bounds(s: Seq<char>)
    ensures
        parse_profile(s) matches Option::Some(pv) ==> i64::MIN <= pv.total_time <= i64::MAX,
{
    if parse_profile(s) is Some {
        let r0 = parse_sym(s, '{');
        assert(r0 is Some);
        let r1 = parse_key(r0->Some_0, "username"@);
        assert(r1 is Some);
        let r2 = parse_opt_string(r1->Some_0);
        assert(r2 is Some);
        let r3 = parse_sym(r2->Some_0.1, ',');
        assert(r3 is Some);
        let r4 = parse_key(r3->Some_0, "email"@);
        assert(r4 is Some);
        let r5 = parse_opt_string(r4->Some_0);
        assert(r5 is Some);
        let r6 = parse_sym(r5->Some_0.1, ',');
        assert(r6 is Some);
        let r7 = parse_key(r6->Some_0, "joinDate"@);
        assert(r7 is Some);
        let r8 = parse_opt_string(r7->Some_0);
        assert(r8 is Some);
        let r9 = parse_sym(r8->Some_0.1, ',');
        assert(r9 is Some);
        let r10 = parse_key(r9->Some_0, "totalTime"@);
        assert(r10 is Some);
        let r11 = parse_i64(r10->Some_0);
        assert(r11 is Some);
        let t = skip_ws(r10->Some_0);
        lemma_parse_digits_ge(t, 0);
        if t.len() > 0 && t[0] == '-' {
            lemma_parse_digits_ge(t.skip(1), 0);
        }
        assert(i64::MIN <= r11->Some_0.0 <= i64::MAX);
        assert(parse_profile(s)->Some_0.total_time == r11->Some_0.0);
    }
}

/// The back half of the canonical document, reassociated the way the
/// parser walks it.
#[verifier::rlimit(100)]
proof fn lemma_ser_profile_shape_tail(
    pv: ProfileView,
    u9: Seq<char>,
    u10: Seq<char>,
    u11: Seq<char>,
    u12: Seq<char>,
    u13: Seq<char>,
    u14: Seq<char>,
    u15: Seq<char>,
)
    requires
        u15 == seq!['\n'] + seq!['}'] + Seq::<char>::empty(),
        u14 == seq![' '] + ser_activities(pv.activities) + u15,
        u13 == "\n  "@ + ser_string("activities"@) + seq![':'] + u14,
        u12 == seq![' '] + ser_opt_string(pv.signature) + (seq![','] + u13),
        u11 == "\n  "@ + ser_string("signature"@) + seq![':'] + u12,
        u10 == seq![' '] + ser_opt_string(pv.avatar) + (seq![','] + u11),
        u9 == "\n  "@ + ser_string("avatar"@) + seq![':'] + u10,
    ensures
        ",\n  \"avatar\": "@ + ser_opt_string(pv.avatar) + ",\n  \"signature\": "@
            + ser_opt_string(pv.signature) + ",\n  \"activities\": "@ + ser_activities(
            pv.activities,
        ) + "\n}"@ == seq![','] + u9,
{
    reveal_strlit(",\n  \"avatar\": ");
    reveal_strlit(",\n  \"signature\": ");
    reveal_strlit(",\n  \"activities\": ");
    reveal_strlit("\n}");
    reveal_strlit("\n  ");
    reveal_strlit("avatar");
    reveal_strlit("signature");
    reveal_strlit("activities");
    assert(all_plain("avatar"@));
    assert(all_plain("signature"@));
    assert(all_plain("activities"@));
    lemma_ser_body_plain("avatar"@);
    lemma_ser_body_plain("signature"@);
    lemma_ser_body_plain("activities"@);
    assert(",\n  \"avatar\": "@ =~= seq![','] + "\n  "@ + ser_string("avatar"@) + seq![':']
        + seq![' ']);
    assert(",\n  \"signature\": "@ =~= seq![','] + "\n  "@ + ser_string("signature"@)
        + seq![':'] + seq![' ']);
    assert(",\n  \"activities\": "@ =~= seq![','] + "\n  "@ + ser_string("activities"@)
        + seq![':'] + seq![' ']);
    assert("\n}"@ =~= seq!['\n'] + seq!['}']);
    assert(",\n  \"avatar\": "@ + ser_opt_string(pv.avatar) + ",\n  \"signature\": "@
        + ser_opt_string(pv.signature) + ",\n  \"activities\": "@ + ser_activities(
        pv.activities,
    ) + "\n}"@ =~= seq![','] + u9);
}

/// The front half of the canonical document, reassociated the way the
/// parser walks it; the back half stands opaque behind `u9`.
#[verifier::rlimit(100)]
proof fn lemma_ser_profile_shape_head(
    pv: ProfileView,
    u1: Seq<char>,
    u2: Seq<char>,
    u3: Seq<char>,
    u4: Seq<char>,
    u5: Seq<char>,
    u6: Seq<char>,
    u7: Seq<char>,
    u8: Seq<char>,
    u9: Seq<char>,
)
    requires
        u8 == seq![' '] + ser_i64(pv.total_time) + (seq![','] + u9),
        u7 == "\n  "@ + ser_string("totalTime"@) + seq![':'] + u8,
        u6 == seq![' '] + ser_opt_string(pv.join_date) + (seq![','] + u7),
        u5 == "\n  "@ + ser_string("joinDate"@) + seq![':'] + u6,
        u4 == seq![' '] + ser_opt_string(pv.email) + (seq![','] + u5),
        u3 == "\n  "@ + ser_string("email"@) + seq![':'] + u4,
        u2 == seq![' '] + ser_opt_string(pv.username) + (seq![','] + u3),
        u1 == "\n  "@ + ser_string("username"@) + seq![':'] + u2,
    ensures
        "{\n  \"username\": "@ + ser_opt_string(pv.username) + ",\n  \"email\": "@
            + ser_opt_string(pv.email) + ",\n  \"joinDate\": "@ + ser_opt_string(pv.join_date)
            + ",\n  \"totalTime\": "@ + ser_i64(pv.total_time) + (seq![','] + u9)
            == Seq::<char>::empty() + seq!['{'] + u1,
{
    reveal_strlit("{\n  \"username\": ");
    reveal_strlit(",\n  \"email\": ");
    reveal_strlit(",\n  \"joinDate\": ");
    reveal_strlit(",\n  \"totalTime\": ");
    reveal_strlit("\n  ");
    reveal_strlit("username");
    reveal_strlit("email");
    reveal_strlit("joinDate");
    reveal_strlit("totalTime");
    assert(all_plain("username"@));
    assert(all_plain("email"@));
    assert(all_plain("joinDate"@));
    assert(all_plain("totalTime"@));
    lemma_ser_body_plain("username"@);
    lemma_ser_body_plain("email"@);
    lemma_ser_body_plain("joinDate"@);
    lemma_ser_body_plain("totalTime"@);
    assert("{\n  \"username\": "@ =~= seq!['{'] + "\n  "@ + ser_string("username"@)
        + seq![':'] + seq![' ']);
    assert(",\n  \"email\": "@ =~= seq![','] + "\n  "@ + ser_string("email"@) + seq![':']
        + seq![' ']);
    assert(",\n  \"joinDate\": "@ =~= seq![','] + "\n  "@ + ser_string("joinDate"@)
        + seq![':'] + seq![' ']);
    assert(",\n  \"totalTime\": "@ =~= seq![','] + "\n  "@ + ser_string("totalTime"@)
        + seq![':'] + seq![' ']);
    assert("{\n  \"username\": "@ + ser_opt_string(pv.username) + ",\n  \"email\": "@
        + ser_opt_string(pv.email) + ",\n  \"joinDate\": "@ + ser_opt_string(pv.join_date)
        + ",\n  \"totalTime\": "@ + ser_i64(pv.total_time) + (seq![','] + u9)
        =~= Seq::<char>::empty() + seq!['{'] + u1);
}

/// The canonical document, reassociated the way the parser walks it.
#[verifier::rlimit(100)]
proof fn lemma_ser_profile_shape(
    pv: ProfileView,
    u1: Seq<char>,
    u2: Seq<char>,
    u3: Seq<char>,
    u4: Seq<char>,
    u5: Seq<char>,
    u6: Seq<char>,
    u7: Seq<char>,
    u8: Seq<char>,
    u9: Seq<char>,
    u10: Seq<char>,
    u11: Seq<char>,
    u12: Seq<char>,
    u13: Seq<char>,
    u14: Seq<char>,
    u15: Seq<char>,
)
    requires
        u15 == seq!['\n'] + seq!['}'] + Seq::<char>::empty(),
        u14 == seq![' '] + ser_activities(pv.activities) + u15,
        u13 == "\n  "@ + ser_string("activities"@) + seq![':'] + u14,
        u12 == seq![' '] + ser_opt_string(pv.signature) + (seq![','] + u13),
        u11 == "\n  "@ + ser_string("signature"@) + seq![':'] + u12,
        u10 == seq![' '] + ser_opt_string(pv.avatar) + (seq![','] + u11),
        u9 == "\n  "@ + ser_string("avatar"@) + seq![':'] + u10,
        u8 == seq![' '] + ser_i64(pv.total_time) + (seq![','] + u9),
        u7 == "\n  "@ + ser_string("totalTime"@) + seq![':'] + u8,
        u6 == seq![' '] + ser_opt_string(pv.join_date) + (seq![','] + u7),
        u5 == "\n  "@ + ser_string("joinDate"@) + seq![':'] + u6,
        u4 == seq![' '] + ser_opt_string(pv.email) + (seq![','] + u5),
        u3 == "\n  "@ + ser_string("email"@) + seq![':'] + u4,
        u2 == seq![' '] + ser_opt_string(pv.username) + (seq![','] + u3),
        u1 == "\n  "@ + ser_string("username"@) + seq![':'] + u2,
    ensures
        ser_profile(pv) == Seq::<char>::empty() + seq!['{'] + u1,
{
    let head = "{\n  \"username\": "@ + ser_opt_string(pv.username) + ",\n  \"email\": "@
        + ser_opt_string(pv.email) + ",\n  \"joinDate\": "@ + ser_opt_string(pv.join_date)
        + ",\n  \"totalTime\": "@ + ser_i64(pv.total_time);
    let tail = ",\n  \"avatar\": "@ + ser_opt_string(pv.avatar) + ",\n  \"signature\": "@
        + ser_opt_string(pv.signature) + ",\n  \"activities\": "@ + ser_activities(
        pv.activities,
    ) + "\n}"@;
    assert(ser_profile(pv) =~= head + tail);
    lemma_ser_profile_shape_tail(pv, u9, u10, u11, u12, u13, u14, u15);
    lemma_ser_profile_shape_head(pv, u1, u2, u3, u4, u5, u6, u7, u8, u9);
    assert(head + (seq![','] + u9) =~= head + seq![','] + u9);
    assert(ser_profile(pv) == head + (seq![','] + u9)) by {
        assert(head + tail =~= head + (tail));
        assert(tail == seq![','] + u9);
        assert(head + (seq![','] + u9) =~= head + (seq![','] + u9));
    }
}

/// The parser inverts the serializer: any profile value that fits the
/// machine representation parses back from its own document unchanged.
#[verifier::rlimit(100)]
pub proof fn lemma_round_trip(pv: ProfileView)
    requires
        i64::MIN <= pv.total_time <= i64::MAX,
    ensures
        parse_profile(ser_profile(pv)) == Option::Some(pv),
{
    reveal_strlit("\n  ");
    reveal_strlit("\n");
    reveal_strlit("username");
    reveal_strlit("email");
    reveal_strlit("joinDate");
    reveal_strlit("totalTime");
    reveal_strlit("avatar");
    reveal_strlit("signature");
    reveal_strlit("activities");
    assert(all_plain("username"@));
    assert(all_plain("email"@));
    assert(all_plain("joinDate"@));
    assert(all_plain("totalTime"@));
    assert(all_plain("avatar"@));
    assert(all_plain("signature"@));
    assert(all_plain("activities"@));
    assert(all_ws("\n  "@));
    assert(all_ws(seq![' ']));
    assert(all_ws(Seq::<char>::empty()));

    let s = ser_profile(pv);
    let rest = Seq::<char>::empty();
    let u15 = seq!['\n'] + seq!['}'] + rest;
    let u14 = seq![' '] + ser_activities(pv.activities) + u15;
    let u13 = "\n  "@ + ser_string("activities"@) + seq![':'] + u14;
    let u12 = seq![' '] + ser_opt_string(pv.signature) + (seq![','] + u13);
    let u11 = "\n  "@ + ser_string("signature"@) + seq![':'] + u12;
    let u10 = seq![' '] + ser_opt_string(pv.avatar) + (seq![','] + u11);
    let u9 = "\n  "@ + ser_string("avatar"@) + seq![':'] + u10;
    let u8 = seq![' '] + ser_i64(pv.total_time) + (seq![','] + u9);
    let u7 = "\n  "@ + ser_string("totalTime"@) + seq![':'] + u8;
    let u6 = seq![' '] + ser_opt_string(pv.join_date) + (seq![','] + u7);
    let u5 = "\n  "@ + ser_string("joinDate"@) + seq![':'] + u6;
    let u4 = seq![' '] + ser_opt_string(pv.email) + (seq![','] + u5);
    let u3 = "\n  "@ + ser_string("email"@) + seq![':'] + u4;
    let u2 = seq![' '] + ser_opt_string(pv.username) + (seq![','] + u3);
    let u1 = "\n  "@ + ser_string("username"@) + seq![':'] + u2;

    lemma_ser_profile_shape(
        pv,
        u1,
        u2,
        u3,
        u4,
        u5,
        u6,
        u7,
        u8,
        u9,
        u10,
        u11,
        u12,
        u13,
        u14,
        u15,
    );
    lemma_parse_sym_exact(Seq::<char>::empty(), '{', u1);
    lemma_parse_key_exact("username"@, "\n  "@, u2);
    lemma_parse_opt_string_exact(pv.username, seq![' '], seq![','] + u3);
    assert(Seq::<char>::empty() + seq![','] + u3 =~= seq![','] + u3);
    lemma_parse_sym_exact(Seq::<char>::empty(), ',', u3);
    lemma_parse_key_exact("email"@, "\n  "@, u4);
    lemma_parse_opt_string_exact(pv.email, seq![' '], seq![','] + u5);
    assert(Seq::<char>::empty() + seq![','] + u5 =~= seq![','] + u5);
    lemma_parse_sym_exact(Seq::<char>::empty(), ',', u5);
    lemma_parse_key_exact("joinDate"@, "\n  "@, u6);
    lemma_parse_opt_string_exact(pv.join_date, seq![' '], seq![','] + u7);
    assert(Seq::<char>::empty() + seq![','] + u7 =~= seq![','] + u7);
    lemma_parse_sym_exact(Seq::<char>::empty(), ',', u7);
    lemma_parse_key_exact("totalTime"@, "\n  "@, u8);
    assert((seq![','] + u9).len() > 0 && !is_dec_digit((seq![','] + u9)[0]));
    lemma_parse_i64_exact(pv.total_time, seq![' '], seq![','] + u9);
    assert(Seq::<char>::empty() + seq![','] + u9 =~= seq![','] + u9);
    lemma_parse_sym_exact(Seq::<char>::empty(), ',', u9);
    lemma_parse_key_exact("avatar"@, "\n  "@, u10);
    lemma_parse_opt_string_exact(pv.avatar, seq![' '], seq![','] + u11);
    assert(Seq::<char>::empty() + seq![','] + u11 =~= seq![','] + u11);
    lemma_parse_sym_exact(Seq::<char>::empty(), ',', u11);
    lemma_parse_key_exact("signature"@, "\n  "@, u12);
    lemma_parse_opt_string_exact(pv.signature, seq![' '], seq![','] + u13);
    assert(Seq::<char>::empty() + seq![','] + u13 =~= seq![','] + u13);
    lemma_parse_sym_exact(Seq::<char>::empty(), ',', u13);
    lemma_parse_key_exact("activities"@, "\n  "@, u14);
    lemma_parse_activities_exact(pv.activities, seq![' '], u15);
    lemma_parse_sym_exact(seq!['\n'], '}', rest);
    assert(skip_ws(rest).len() == 0);
    assert(parse_profile(s) matches Option::Some(q) && q =~~= pv);
}

} // verus!
