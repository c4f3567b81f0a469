//! Rules on text typed by players and server operators: numbers, names,
//! save file names, the protocol version and addresses.

use vstd::prelude::*;

verus! {

pub open spec fn is_digit(b: u8) -> bool {
    48 <= b <= 57
}

pub open spec fn all_digits(s: Seq<u8>) -> bool {
    forall|i: int| 0 <= i < s.len() ==> is_digit(#[trigger] s[i])
}

/// The value of a string of decimal digits.
pub open spec fn digits_value(s: Seq<u8>) -> int
    decreases s.len(),
{
    if s.len() == 0 {
        0
    } else {
        digits_value(s.drop_last()) * 10 + (s.last() - 48)
    }
}

/// The digits of a number as `str::parse` reads an unsigned integer: a `+`
/// may come first.
pub open spec fn unsigned_digits(s: Seq<u8>) -> Seq<u8> {
    if s.len() > 0 && s[0] == 43 {
        s.drop_first()
    } else {
        s
    }
}

/// The unsigned integer written in `s` if it is at most `max`, as
/// `str::parse` reads it: an optional `+`, then one or more decimal digits.
pub open spec fn parse_unsigned(s: Seq<u8>, max: int) -> Option<int> {
    let d = unsigned_digits(s);
    if d.len() > 0 && all_digits(d) && digits_value(d) <= max {
        Some(digits_value(d))
    } else {
        None
    }
}

/// Appending a digit does not make a number smaller.
pub proof fn lemma_digits_value_grows(s: Seq<u8>, i: int, j: int)
    requires
        0 <= i <= j <= s.len(),
        all_digits(s),
    ensures
        digits_value(s.take(i)) <= digits_value(s.take(j)),
    decreases j - i,
{
    if i < j {
        lemma_digits_value_grows(s, i, j - 1);
        assert(s.take(j).drop_last() =~= s.take(j - 1));
        assert(digits_value(s.take(j - 1)) >= 0) by {
            lemma_digits_value_nonneg(s.take(j - 1));
        }
    }
}

pub proof fn lemma_digits_value_nonneg(s: Seq<u8>)
    requires
        all_digits(s),
    ensures
        digits_value(s) >= 0,
    decreases s.len(),
{
    if s.len() > 0 {
        lemma_digits_value_nonneg(s.drop_last());
    }
}

/// Reads an unsigned decimal number no greater than `max` (see
/// `parse_unsigned`).
pub fn parse_decimal(s: &[u8], max: u64) -> (r: Option<u64>)
    ensures
        match r {
            Some(v) => parse_unsigned(s@, max as int) == Some(v as int),
            None => parse_unsigned(s@, max as int) is None,
        },
{
    let start: usize = if s.len() > 0 && s[0] == 43 { 1 } else { 0 };
    let ghost d = unsigned_digits(s@);
    assert(d =~= s@.skip(start as int));
    if start >= s.len() {
        return None;
    }
    let mut acc: u64 = 0;
    let mut i: usize = start;
    while i < s.len()
        invariant
            start <= i <= s@.len(),
            d == unsigned_digits(s@),
            d =~= s@.skip(start as int),
            all_digits(d.take(i - start)),
            acc as int == digits_value(d.take(i - start)),
            acc <= max,
        decreases s@.len() - i,
    {
        let b = s[i];
        let ghost k = (i - start) as int;
        assert(d.take(k + 1).drop_last() =~= d.take(k));
        assert(d[k] == b);
        if b < 48 || b > 57 {
            assert(!is_digit(d[k]));
            assert(!all_digits(d));
            assert(parse_unsigned(s@, max as int) is None);
            return None;
        }
        let digit = (b - 48) as u64;
        if digit > max || acc > (max - digit) / 10 {
            proof {
                assert(acc * 10 + digit > max) by (nonlinear_arith)
                    requires
                        digit > max || acc > (max - digit) / 10,
                        digit <= 9,
                        acc >= 0,
                ;
                assert(all_digits(d.take(k + 1)));
                if all_digits(d) {
                    assert(d.take(d.len() as int) =~= d);
                    lemma_digits_value_grows(d, k + 1, d.len() as int);
                }
            }
            return None;
        }
        acc = acc * 10 + digit;
        i = i + 1;
    }
    assert(d.take(d.len() as int) =~= d);
    Some(acc)
}


/// Index of the first `.` in `s`, or its length when there is none.
pub open spec fn first_dot(s: Seq<u8>) -> int
    decreases s.len(),
{
    if s.len() == 0 {
        0
    } else if s[0] == 46 {
        0
    } else {
        1 + first_dot(s.drop_first())
    }
}

/// The pieces of `s` between dots, as `str::split('.')` gives them.
pub open spec fn dot_fields(s: Seq<u8>) -> Seq<Seq<u8>>
    decreases s.len(),
{
    let i = first_dot(s);
    if i >= s.len() {
        seq![s]
    } else {
        proof {
            lemma_first_dot_bounds(s);
        }
        seq![s.take(i)] + dot_fields(s.skip(i + 1))
    }
}

pub proof fn lemma_first_dot_bounds(s: Seq<u8>)
    ensures
        0 <= first_dot(s) <= s.len(),
        first_dot(s) < s.len() ==> s[first_dot(s)] == 46,
        forall|j: int| 0 <= j < first_dot(s) ==> s[j] != 46,
    decreases s.len(),
{
    if s.len() > 0 && s[0] != 46 {
        lemma_first_dot_bounds(s.drop_first());
        assert forall|j: int| 0 <= j < first_dot(s) implies s[j] != 46 by {
            if j > 0 {
                assert(s[j] == s.drop_first()[j - 1]);
            }
        }
    }
}

/// A piece without dots followed by a dot and the rest splits off whole.
pub proof fn lemma_first_dot_prefix(cur: Seq<u8>, rest: Seq<u8>)
    requires
        forall|j: int| 0 <= j < cur.len() ==> cur[j] != 46,
    ensures
        rest.len() > 0 && rest[0] == 46 ==> first_dot(cur + rest) == cur.len(),
        rest.len() == 0 ==> first_dot(cur + rest) == cur.len(),
    decreases cur.len(),
{
    if cur.len() > 0 {
        assert((cur + rest).drop_first() =~= cur.drop_first() + rest);
        lemma_first_dot_prefix(cur.drop_first(), rest);
    }
}

/// The pieces of a byte string between its dots (see `dot_fields`).
pub fn split_dots(s: &[u8]) -> (r: Vec<Vec<u8>>)
    ensures
        r@.map_values(|f: Vec<u8>| f@) == dot_fields(s@),
{
    let mut done: Vec<Vec<u8>> = Vec::new();
    let mut cur: Vec<u8> = Vec::new();
    let mut i: usize = 0;
    assert(cur@ + s@.skip(0) =~= s@);
    assert(done@.map_values(|f: Vec<u8>| f@) + dot_fields(s@) =~= dot_fields(s@));
    while i < s.len()
        invariant
            0 <= i <= s@.len(),
            forall|j: int| 0 <= j < cur@.len() ==> cur@[j] != 46,
            done@.map_values(|f: Vec<u8>| f@) + dot_fields(cur@ + s@.skip(i as int)) == dot_fields(s@),
        decreases s@.len() - i,
    {
        let b = s[i];
        if b == 46 {
            proof {
                let rest = s@.skip(i as int);
                lemma_first_dot_prefix(cur@, rest);
                let whole = cur@ + rest;
                assert(whole.take(cur@.len() as int) =~= cur@);
                assert(whole.skip(cur@.len() as int + 1) =~= s@.skip(i + 1));
                assert(dot_fields(whole) == seq![cur@] + dot_fields(s@.skip(i + 1)));
            }
            let ghost old_done = done@.map_values(|f: Vec<u8>| f@);
            let ghost old_cur = cur@;
            done.push(cur);
            cur = Vec::new();
            proof {
                assert(done@.map_values(|f: Vec<u8>| f@) =~= old_done.push(old_cur));
                assert(cur@ + s@.skip(i + 1) =~= s@.skip(i + 1));
                assert(old_done.push(old_cur) + dot_fields(s@.skip(i + 1)) =~= old_done + (seq![old_cur] + dot_fields(s@.skip(i + 1))));
            }
        } else {
            let ghost before = cur@ + s@.skip(i as int);
            cur.push(b);
            assert(cur@ + s@.skip(i + 1) =~= before);
        }
        i = i + 1;
    }
    proof {
        lemma_first_dot_prefix(cur@, Seq::empty());
        assert(cur@ + s@.skip(i as int) =~= cur@);
        assert(dot_fields(cur@) == seq![cur@]);
    }
    let ghost old_done = done@.map_values(|f: Vec<u8>| f@);
    let ghost old_cur = cur@;
    done.push(cur);
    assert(done@.map_values(|f: Vec<u8>| f@) =~= old_done.push(old_cur));
    done
}

/// The protocol number of a version `major.minor.patch`:
/// `major * 1_000_000 + minor * 1_000 + patch`, when the version has at
/// least three dot-separated numbers and the result fits in a `u64`.
pub open spec fn protocol_number(version: Seq<u8>) -> Option<int> {
    let f = dot_fields(version);
    if f.len() >= 3 {
        match (parse_unsigned(f[0], u64::MAX as int), parse_unsigned(f[1], u64::MAX as int), parse_unsigned(f[2], u64::MAX as int)) {
            (Some(a), Some(b), Some(c)) => if a * 1_000_000 <= u64::MAX && b * 1_000 <= u64::MAX
                && a * 1_000_000 + b * 1_000 <= u64::MAX && a * 1_000_000 + b * 1_000 + c <= u64::MAX {
                Some(a * 1_000_000 + b * 1_000 + c)
            } else {
                None
            },
            _ => None,
        }
    } else {
        None
    }
}

/// The protocol number client and server agree on, from the version of the
/// program (see `protocol_number`).
pub fn protocol_id(version: &[u8]) -> (r: Option<u64>)
    ensures
        match r {
            Some(v) => protocol_number(version@) == Some(v as int),
            None => protocol_number(version@) is None,
        },
{
    let fields = split_dots(version);
    proof {
        assert(fields@.len() == dot_fields(version@).len());
    }
    if fields.len() < 3 {
        return None;
    }
    proof {
        assert(fields@[0]@ == dot_fields(version@)[0]);
        assert(fields@[1]@ == dot_fields(version@)[1]);
        assert(fields@[2]@ == dot_fields(version@)[2]);
    }
    let a = match parse_decimal(fields[0].as_slice(), u64::MAX) {
        Some(a) => a,
        None => return None,
    };
    let b = match parse_decimal(fields[1].as_slice(), u64::MAX) {
        Some(b) => b,
        None => return None,
    };
    let c = match parse_decimal(fields[2].as_slice(), u64::MAX) {
        Some(c) => c,
        None => return None,
    };
    let a1 = match a.checked_mul(1_000_000) {
        Some(v) => v,
        None => return None,
    };
    let b1 = match b.checked_mul(1_000) {
        Some(v) => v,
        None => return None,
    };
    let s = match a1.checked_add(b1) {
        Some(v) => v,
        None => return None,
    };
    match s.checked_add(c) {
        Some(v) => Some(v),
        None => None,
    }
}


/// Why a new world cannot be created.
#[derive(Clone, Copy, PartialEq, Eq, Debug, Structural)]
pub enum WorldNameError {
    Empty,
    IllegalCharacters,
    TooLong,
}

/// The bytes a world name may not hold, because they are not allowed in
/// file names: `/ \ : ? " < > |`.
pub open spec fn is_illegal_name_byte(b: u8) -> bool {
    b == 47 || b == 92 || b == 58 || b == 63 || b == 34 || b == 60 || b == 62 || b == 124
}

pub open spec fn has_illegal_byte(s: Seq<u8>) -> bool {
    exists|i: int| 0 <= i < s.len() && #[trigger] is_illegal_name_byte(s[i])
}

/// The first rule a world name breaks: it is empty, holds a byte not
/// allowed in file names, or is longer than 20 bytes.
pub open spec fn world_name_check(name: Seq<u8>) -> Result<(), WorldNameError> {
    if name.len() == 0 {
        Err(WorldNameError::Empty)
    } else if has_illegal_byte(name) {
        Err(WorldNameError::IllegalCharacters)
    } else if name.len() > 20 {
        Err(WorldNameError::TooLong)
    } else {
        Ok(())
    }
}

/// Checks the name of a new world (see `world_name_check`).
pub fn check_world_name(name: &[u8]) -> (r: Result<(), WorldNameError>)
    ensures
        r == world_name_check(name@),
{
    if name.len() == 0 {
        return Err(WorldNameError::Empty);
    }
    let mut i: usize = 0;
    while i < name.len()
        invariant
            0 <= i <= name@.len(),
            forall|j: int| 0 <= j < i ==> !is_illegal_name_byte(#[trigger] name@[j]),
        decreases name@.len() - i,
    {
        let b = name[i];
        if b == 47 || b == 92 || b == 58 || b == 63 || b == 34 || b == 60 || b == 62 || b == 124 {
            assert(is_illegal_name_byte(name@[i as int]));
            return Err(WorldNameError::IllegalCharacters);
        }
        i = i + 1;
    }
    if name.len() > 20 {
        return Err(WorldNameError::TooLong);
    }
    Ok(())
}

impl WorldNameError {
    /// The message shown for this error.
    pub fn message(self) -> (r: &'static str)
        ensures
            self == WorldNameError::Empty ==> r@ == "Name cannot be empty"@,
            self == WorldNameError::IllegalCharacters ==> r@ == "Name contains illegal characters"@,
            self == WorldNameError::TooLong ==> r@ == "Name is too long"@,
    {
        match self {
            WorldNameError::Empty => "Name cannot be empty",
            WorldNameError::IllegalCharacters => "Name contains illegal characters",
            WorldNameError::TooLong => "Name is too long",
        }
    }
}

/// The seed of a new world as typed: `None` (pick one at random) when
/// nothing was typed, the number when it is a valid `u32`, `Err` otherwise.
pub fn parse_seed(seed: &[u8]) -> (r: Result<Option<u32>, ()>)
    ensures
        seed@.len() == 0 ==> r == Ok::<Option<u32>, ()>(None),
        seed@.len() > 0 ==> match r {
            Ok(Some(v)) => parse_unsigned(seed@, u32::MAX as int) == Some(v as int),
            Ok(None) => false,
            Err(_) => parse_unsigned(seed@, u32::MAX as int) is None,
        },
{
    if seed.len() == 0 {
        return Ok(None);
    }
    match parse_decimal(seed, u32::MAX as u64) {
        Some(v) => Ok(Some(v as u32)),
        None => Err(()),
    }
}

/// Why the client cannot connect.
#[derive(Clone, Copy, PartialEq, Eq, Debug, Structural)]
pub enum ConnectError {
    EmptyName,
    NameTooLong,
    EmptyAddress,
}

/// A byte that begins a character of UTF-8 text: any byte but a
/// continuation byte (`0b10xx_xxxx`).
pub open spec fn starts_char(b: u8) -> bool {
    !(128 <= b < 192)
}

/// The number of characters of UTF-8 text: the bytes that begin one.
pub open spec fn char_count(s: Seq<u8>) -> nat
    decreases s.len(),
{
    if s.len() == 0 {
        0
    } else {
        char_count(s.drop_last()) + if starts_char(s.last()) {
            1nat
        } else {
            0nat
        }
    }
}

/// Counts the characters of UTF-8 text (see `char_count`).
pub fn count_chars(s: &[u8]) -> (r: usize)
    ensures
        r == char_count(s@),
{
    let mut r: usize = 0;
    let mut i: usize = 0;
    while i < s.len()
        invariant
            0 <= i <= s@.len(),
            r <= i,
            r == char_count(s@.take(i as int)),
        decreases s@.len() - i,
    {
        assert(s@.take(i + 1).drop_last() =~= s@.take(i as int));
        assert(s@.take(i + 1).last() == s@[i as int]);
        if !(128 <= s[i] && s[i] < 192) {
            r = r + 1;
        }
        i = i + 1;
    }
    assert(s@.take(s@.len() as int) =~= s@);
    r
}

/// The first rule the connection form breaks: the player name (UTF-8 text)
/// is empty or longer than 16 characters, or no address was typed.
pub open spec fn connect_check(name: Seq<u8>, address: Seq<u8>) -> Result<(), ConnectError> {
    if name.len() == 0 {
        Err(ConnectError::EmptyName)
    } else if char_count(name) > 16 {
        Err(ConnectError::NameTooLong)
    } else if address.len() == 0 {
        Err(ConnectError::EmptyAddress)
    } else {
        Ok(())
    }
}

/// Checks the player name and server address typed to connect (see
/// `connect_check`); the address itself is read afterwards.
pub fn check_connect_input(name: &[u8], address: &[u8]) -> (r: Result<(), ConnectError>)
    ensures
        r == connect_check(name@, address@),
{
    if name.len() == 0 {
        Err(ConnectError::EmptyName)
    } else if count_chars(name) > 16 {
        Err(ConnectError::NameTooLong)
    } else if address.len() == 0 {
        Err(ConnectError::EmptyAddress)
    } else {
        Ok(())
    }
}

impl ConnectError {
    /// The message shown for this error.
    pub fn message(self) -> (r: &'static str)
        ensures
            self == ConnectError::EmptyName ==> r@ == "Player name cannot be empty"@,
            self == ConnectError::NameTooLong ==> r@ == "Player name cannot be longer than 16 characters"@,
            self == ConnectError::EmptyAddress ==> r@ == "IP address cannot be empty"@,
    {
        match self {
            ConnectError::EmptyName => "Player name cannot be empty",
            ConnectError::NameTooLong => "Player name cannot be longer than 16 characters",
            ConnectError::EmptyAddress => "IP address cannot be empty",
        }
    }
}

/// The extension of a saved world's file: `.ferris`.
pub open spec fn save_ext() -> Seq<u8> {
    seq![46u8, 102u8, 101u8, 114u8, 114u8, 105u8, 115u8]
}

/// `s` with every occurrence of `.ferris` taken out, scanning from the
/// left without overlap, as `str::replace(".ferris", "")` does.
pub open spec fn without_ext(s: Seq<u8>) -> Seq<u8>
    decreases s.len(),
{
    if s.len() < 7 {
        s
    } else if s.take(7) == save_ext() {
        without_ext(s.skip(7))
    } else {
        seq![s[0]] + without_ext(s.drop_first())
    }
}

pub open spec fn ends_with_ext(s: Seq<u8>) -> bool {
    s.len() >= 7 && s.skip(s.len() - 7) == save_ext()
}

fn matches_ext_at(s: &[u8], i: usize) -> (r: bool)
    requires
        i + 7 <= s@.len(),
    ensures
        r == (s@.subrange(i as int, i + 7) == save_ext()),
{
    let r = s[i] == 46 && s[i + 1] == 102 && s[i + 2] == 101 && s[i + 3] == 114 && s[i + 4] == 114
        && s[i + 5] == 105 && s[i + 6] == 115;
    if r {
        assert(s@.subrange(i as int, i + 7) =~= save_ext());
    } else {
        assert(s@.subrange(i as int, i + 7) != save_ext()) by {
            if s@.subrange(i as int, i + 7) == save_ext() {
                assert(s@.subrange(i as int, i + 7)[0] == s@[i as int]);
                assert(s@.subrange(i as int, i + 7)[1] == s@[i + 1]);
                assert(s@.subrange(i as int, i + 7)[2] == s@[i + 2]);
                assert(s@.subrange(i as int, i + 7)[3] == s@[i + 3]);
                assert(s@.subrange(i as int, i + 7)[4] == s@[i + 4]);
                assert(s@.subrange(i as int, i + 7)[5] == s@[i + 5]);
                assert(s@.subrange(i as int, i + 7)[6] == s@[i + 6]);
            }
        }
    }
    r
}

/// The world name a save file stands for: for a file name ending in
/// `.ferris`, the name with every `.ferris` taken out; `None` for any other
/// file.
pub fn saved_world_name(file_name: &[u8]) -> (r: Option<Vec<u8>>)
    ensures
        match r {
            Some(n) => ends_with_ext(file_name@) && n@ == without_ext(file_name@),
            None => !ends_with_ext(file_name@),
        },
{
    let len = file_name.len();
    if len < 7 || !matches_ext_at(file_name, len - 7) {
        proof {
            if len >= 7 {
                assert(file_name@.skip(len - 7) =~= file_name@.subrange(len - 7, len as int));
            }
        }
        return None;
    }
    assert(file_name@.skip(len - 7) =~= file_name@.subrange(len - 7, len as int));
    let mut out: Vec<u8> = Vec::new();
    let mut i: usize = 0;
    assert(file_name@.skip(0) =~= file_name@);
    assert(out@ + without_ext(file_name@) =~= without_ext(file_name@));
    while i < len
        invariant
            0 <= i <= len,
            len == file_name@.len(),
            out@ + without_ext(file_name@.skip(i as int)) == without_ext(file_name@),
        decreases len - i,
    {
        let ghost rest = file_name@.skip(i as int);
        if len - i >= 7 && matches_ext_at(file_name, i) {
            assert(rest.take(7) =~= file_name@.subrange(i as int, i + 7));
            assert(rest.skip(7) =~= file_name@.skip(i + 7));
            i = i + 7;
        } else {
            proof {
                if rest.len() >= 7 {
                    assert(rest.take(7) =~= file_name@.subrange(i as int, i + 7));
                    assert(rest.drop_first() =~= file_name@.skip(i + 1));
                    assert(out@.push(file_name@[i as int]) + without_ext(file_name@.skip(i + 1)) =~= out@ + (seq![rest[0]] + without_ext(rest.drop_first())));
                } else {
                    assert(without_ext(rest) == rest);
                    assert(file_name@.skip(i + 1) =~= rest.drop_first());
                    assert(without_ext(rest.drop_first()) == rest.drop_first());
                    assert(out@.push(file_name@[i as int]) + rest.drop_first() =~= out@ + rest);
                }
            }
            out.push(file_name[i]);
            i = i + 1;
        }
    }
    assert(without_ext(file_name@.skip(len as int)) =~= Seq::<u8>::empty());
    assert(out@ + Seq::<u8>::empty() =~= out@);
    Some(out)
}

/// An IPv4 address in a private range: `10.0.0.0/8`, `172.16.0.0/12` or
/// `192.168.0.0/16`.
pub open spec fn private_v4(o: [u8; 4]) -> bool {
    o[0] == 10 || (o[0] == 172 && 16 <= o[1] <= 31) || (o[0] == 192 && o[1] == 168)
}

/// Whether the address with these four octets is a private one.
pub fn is_private_v4(octets: [u8; 4]) -> (r: bool)
    ensures
        r == private_v4(octets),
{
    if octets[0] == 10 {
        true
    } else if octets[0] == 172 && 16 <= octets[1] && octets[1] <= 31 {
        true
    } else {
        octets[0] == 192 && octets[1] == 168
    }
}

fn bytes_equal(a: &[u8], b: &[u8]) -> (r: bool)
    ensures
        r == (a@ == b@),
{
    if a.len() != b.len() {
        return false;
    }
    let mut i: usize = 0;
    while i < a.len()
        invariant
            0 <= i <= a@.len(),
            a@.len() == b@.len(),
            forall|j: int| 0 <= j < i ==> a@[j] == b@[j],
        decreases a@.len() - i,
    {
        if a[i] != b[i] {
            return false;
        }
        i = i + 1;
    }
    assert(a@ =~= b@);
    true
}

/// Whether a connected player already uses the name `name`.
pub fn name_taken(names: &Vec<Vec<u8>>, name: &[u8]) -> (r: bool)
    ensures
        r == exists|i: int| 0 <= i < names@.len() && (#[trigger] names@[i])@ == name@,
{
    let mut i: usize = 0;
    while i < names.len()
        invariant
            0 <= i <= names@.len(),
            forall|j: int| 0 <= j < i ==> (#[trigger] names@[j])@ != name@,
        decreases names@.len() - i,
    {
        if bytes_equal(names[i].as_slice(), name) {
            return true;
        }
        i = i + 1;
    }
    false
}

/// Why the server cannot start with the settings given.
#[derive(Clone, Copy, PartialEq, Eq, Debug, Structural)]
pub enum SettingsError {
    InvalidPort,
    InvalidMaxPlayers,
    MaxPlayersTooHigh,
}

impl SettingsError {
    /// The message shown for this error.
    pub fn message(self) -> (r: &'static str)
        ensures
            self == SettingsError::InvalidPort ==> r@ == "Invalid port"@,
            self == SettingsError::InvalidMaxPlayers ==> r@ == "Invalid max players"@,
            self == SettingsError::MaxPlayersTooHigh ==> r@ == "Max players too high"@,
    {
        match self {
            SettingsError::InvalidPort => "Invalid port",
            SettingsError::InvalidMaxPlayers => "Invalid max players",
            SettingsError::MaxPlayersTooHigh => "Max players too high",
        }
    }
}

/// The port typed in the server settings, when it is a valid port number.
pub fn parse_port(port: &[u8]) -> (r: Result<u16, SettingsError>)
    ensures
        match r {
            Ok(p) => parse_unsigned(port@, u16::MAX as int) == Some(p as int),
            Err(e) => e == SettingsError::InvalidPort && parse_unsigned(port@, u16::MAX as int) is None,
        },
{
    match parse_decimal(port, u16::MAX as u64) {
        Some(p) => Ok(p as u16),
        None => Err(SettingsError::InvalidPort),
    }
}

/// The number of players the server takes: a valid number no higher than
/// 1024.
pub fn parse_max_players(max_players: &[u8]) -> (r: Result<usize, SettingsError>)
    ensures
        match r {
            Ok(n) => parse_unsigned(max_players@, usize::MAX as int) == Some(n as int) && n <= 1024,
            Err(SettingsError::InvalidMaxPlayers) => parse_unsigned(max_players@, usize::MAX as int) is None,
            Err(SettingsError::MaxPlayersTooHigh) => parse_unsigned(max_players@, usize::MAX as int) matches Some(n) && n > 1024,
            Err(SettingsError::InvalidPort) => false,
        },
{
    match parse_decimal(max_players, usize::MAX as u64) {
        Some(n) => if n > 1024 {
            Err(SettingsError::MaxPlayersTooHigh)
        } else {
            Ok(n as usize)
        },
        None => Err(SettingsError::InvalidMaxPlayers),
    }
}


/// A key pressed while a text box has the focus.
pub enum TextKey {
    /// Takes off the last character.
    Backspace,
    /// A key that types these characters.
    Typed(Vec<char>),
    /// Any other key.
    Other,
}

/// The contents of a text box after `key` is pressed.
pub open spec fn edited(content: Seq<char>, key: TextKey) -> Seq<char> {
    match key {
        TextKey::Backspace => if content.len() > 0 {
            content.drop_last()
        } else {
            content
        },
        TextKey::Typed(t) => content + t@,
        TextKey::Other => content,
    }
}

/// Applies a key press to the contents of the focused text box.
pub fn edit_text(content: &mut Vec<char>, key: &TextKey)
    ensures
        final(content)@ == edited(old(content)@, *key),
{
    match key {
        TextKey::Backspace => {
            if content.len() > 0 {
                content.pop();
            }
        },
        TextKey::Typed(t) => {
            let mut i: usize = 0;
            while i < t.len()
                invariant
                    0 <= i <= t@.len(),
                    content@ == old(content)@ + t@.take(i as int),
                decreases t@.len() - i,
            {
                content.push(t[i]);
                assert(t@.take(i + 1) =~= t@.take(i as int).push(t@[i as int]));
                i = i + 1;
            }
            assert(t@.take(t@.len() as int) =~= t@);
        },
        TextKey::Other => {},
    }
}

/// What the focused text box shows: its contents followed by a bar.
pub fn shown_text(content: &Vec<char>) -> (r: Vec<char>)
    ensures
        r@ == content@.push('|'),
{
    let mut r: Vec<char> = Vec::new();
    let mut i: usize = 0;
    while i < content.len()
        invariant
            0 <= i <= content@.len(),
            r@ == content@.take(i as int),
        decreases content@.len() - i,
    {
        r.push(content[i]);
        assert(content@.take(i + 1) =~= content@.take(i as int).push(content@[i as int]));
        i = i + 1;
    }
    assert(content@.take(content@.len() as int) =~= content@);
    r.push('|');
    r
}


/// `s` holds `.ferris` nowhere.
pub open spec fn free_of_ext(s: Seq<u8>) -> bool {
    forall|i: int, j: int| 0 <= i && j == i + 7 && j <= s.len() ==> #[trigger] s.subrange(i, j) != save_ext()
}

/// The name of the file a world named `name` is saved in: the name followed
/// by `.ferris`.
pub fn save_file_name(name: &[u8]) -> (r: Vec<u8>)
    requires
        name@.len() + 7 <= usize::MAX,
    ensures
        r@ == name@ + save_ext(),
{
    let mut r: Vec<u8> = Vec::new();
    let mut i: usize = 0;
    while i < name.len()
        invariant
            0 <= i <= name@.len(),
            r@ == name@.take(i as int),
        decreases name@.len() - i,
    {
        r.push(name[i]);
        assert(name@.take(i + 1) =~= name@.take(i as int).push(name@[i as int]));
        i = i + 1;
    }
    assert(name@.take(name@.len() as int) =~= name@);
    r.push(46);
    r.push(102);
    r.push(101);
    r.push(114);
    r.push(114);
    r.push(105);
    r.push(115);
    assert(r@ =~= name@ + save_ext());
    r
}

/// A world saved under a name that does not hold `.ferris` is listed again
/// under that same name.
pub proof fn lemma_save_name_round_trip(name: Seq<u8>)
    requires
        free_of_ext(name),
    ensures
        ends_with_ext(name + save_ext()),
        without_ext(name + save_ext()) == name,
    decreases name.len(),
{
    let s = name + save_ext();
    assert(s.skip(s.len() - 7) =~= save_ext());
    if name.len() == 0 {
        assert(s =~= save_ext());
        assert(s.take(7) =~= save_ext());
        assert(s.skip(7) =~= Seq::<u8>::empty());
        assert(without_ext(s) == without_ext(s.skip(7)));
        assert(name =~= Seq::<u8>::empty());
    } else {
        assert(s.take(7) != save_ext()) by {
            if name.len() >= 7 {
                assert(s.take(7) =~= name.subrange(0, 7));
            } else {
                let k = name.len() as int;
                assert(s.take(7)[k] == 46u8);
                assert(save_ext()[k] != 46u8);
            }
        }
        let rest = name.drop_first();
        assert forall|i: int, j: int| 0 <= i && j == i + 7 && j <= rest.len() implies #[trigger] rest.subrange(i, j) != save_ext() by {
            assert(rest.subrange(i, j) =~= name.subrange(i + 1, j + 1));
        }
        lemma_save_name_round_trip(rest);
        assert(s.drop_first() =~= rest + save_ext());
        assert(without_ext(s) == seq![s[0]] + without_ext(s.drop_first()));
        assert(seq![s[0]] + rest =~= name);
    }
}


/// Why the server does not start with the settings typed.
#[derive(Clone, Copy, PartialEq, Eq, Debug, Structural)]
pub enum StartError {
    InvalidPort,
    InvalidPrivateIp,
    InvalidPublicIp,
    InvalidMaxPlayers,
    MaxPlayersTooHigh,
}

impl StartError {
    /// The message shown for this error.
    pub fn message(self) -> (r: &'static str)
        ensures
            self == StartError::InvalidPort ==> r@ == "Invalid port"@,
            self == StartError::InvalidPrivateIp ==> r@ == "Invalid private IP"@,
            self == StartError::InvalidPublicIp ==> r@ == "Invalid public IP"@,
            self == StartError::InvalidMaxPlayers ==> r@ == "Invalid max players"@,
            self == StartError::MaxPlayersTooHigh ==> r@ == "Max players too high"@,
    {
        match self {
            StartError::InvalidPort => "Invalid port",
            StartError::InvalidPrivateIp => "Invalid private IP",
            StartError::InvalidPublicIp => "Invalid public IP",
            StartError::InvalidMaxPlayers => "Invalid max players",
            StartError::MaxPlayersTooHigh => "Max players too high",
        }
    }
}

/// What the server starts with, or the first setting that is wrong, checked
/// in the order port, private address, public address, number of players.
/// `private_ip` is the private address as read (`None` when it does not read
/// as an IPv4 address); `public_ip` is `None` when no public address was
/// typed and otherwise the address as read. The server is reached at the
/// public address when one was typed, at the private one otherwise.
pub open spec fn start_settings(
    port: Seq<u8>,
    private_ip: Option<[u8; 4]>,
    public_ip: Option<Option<[u8; 4]>>,
    max_players: Seq<u8>,
) -> Result<(u16, [u8; 4], usize), StartError> {
    match parse_unsigned(port, u16::MAX as int) {
        None => Err(StartError::InvalidPort),
        Some(p) => match private_ip {
            None => Err(StartError::InvalidPrivateIp),
            Some(private) => match public_ip {
                Some(None) => Err(StartError::InvalidPublicIp),
                _ => {
                    let ip = match public_ip {
                        Some(Some(public)) => public,
                        _ => private,
                    };
                    match parse_unsigned(max_players, usize::MAX as int) {
                        None => Err(StartError::InvalidMaxPlayers),
                        Some(n) => if n > 1024 {
                            Err(StartError::MaxPlayersTooHigh)
                        } else {
                            Ok((p as u16, ip, n as usize))
                        },
                    }
                },
            },
        },
    }
}

/// Checks the server settings typed (see `start_settings`).
pub fn check_start_settings(
    port: &[u8],
    private_ip: Option<[u8; 4]>,
    public_ip: Option<Option<[u8; 4]>>,
    max_players: &[u8],
) -> (r: Result<(u16, [u8; 4], usize), StartError>)
    ensures
        r == start_settings(port@, private_ip, public_ip, max_players@),
{
    let p = match parse_port(port) {
        Ok(p) => p,
        Err(_) => return Err(StartError::InvalidPort),
    };
    let private = match private_ip {
        Some(a) => a,
        None => return Err(StartError::InvalidPrivateIp),
    };
    let ip = match public_ip {
        None => private,
        Some(Some(a)) => a,
        Some(None) => return Err(StartError::InvalidPublicIp),
    };
    match parse_max_players(max_players) {
        Ok(n) => Ok((p, ip, n)),
        Err(SettingsError::MaxPlayersTooHigh) => Err(StartError::MaxPlayersTooHigh),
        Err(_) => Err(StartError::InvalidMaxPlayers),
    }
}

/// What a text box shows and whether it has the focus, after a click:
/// clicked while not focused, it takes the focus, its placeholder text is
/// cleared and a bar is shown at the end; clicked while focused, it keeps
/// the focus and what it shows. Any click elsewhere takes the focus away:
/// the bar goes, and an empty box shows its placeholder again.
pub open spec fn after_click(shown: Seq<char>, focused: bool, placeholder: Seq<char>, clicked: bool) -> (
    Seq<char>,
    bool,
) {
    if clicked {
        if !focused {
            (if shown == placeholder {
                Seq::<char>::empty()
            } else {
                shown
            }.push('|'), true)
        } else {
            (shown, true)
        }
    } else {
        let s = if shown.len() > 0 && shown.last() == '|' {
            shown.drop_last()
        } else {
            shown
        };
        (if s.len() == 0 {
            placeholder
        } else {
            s
        }, false)
    }
}

fn chars_equal(a: &Vec<char>, b: &Vec<char>) -> (r: bool)
    ensures
        r == (a@ == b@),
{
    if a.len() != b.len() {
        return false;
    }
    let mut i: usize = 0;
    while i < a.len()
        invariant
            0 <= i <= a@.len(),
            a@.len() == b@.len(),
            forall|j: int| 0 <= j < i ==> a@[j] == b@[j],
        decreases a@.len() - i,
    {
        if a[i] != b[i] {
            return false;
        }
        i = i + 1;
    }
    assert(a@ =~= b@);
    true
}

fn copy_chars(a: &Vec<char>) -> (r: Vec<char>)
    ensures
        r@ == a@,
{
    let mut r: Vec<char> = Vec::new();
    let mut i: usize = 0;
    while i < a.len()
        invariant
            0 <= i <= a@.len(),
            r@ == a@.take(i as int),
        decreases a@.len() - i,
    {
        r.push(a[i]);
        assert(a@.take(i + 1) =~= a@.take(i as int).push(a@[i as int]));
        i = i + 1;
    }
    assert(a@.take(a@.len() as int) =~= a@);
    r
}

/// Applies a click to a text box (see `after_click`): updates what it
/// shows and returns whether it has the focus.
pub fn click_text_box(shown: &mut Vec<char>, focused: bool, placeholder: &Vec<char>, clicked: bool) -> (r: bool)
    ensures
        (final(shown)@, r) == after_click(old(shown)@, focused, placeholder@, clicked),
{
    if clicked {
        if !focused {
            if chars_equal(shown, placeholder) {
                shown.clear();
            }
            shown.push('|');
        }
        true
    } else {
        if shown.len() > 0 && shown[shown.len() - 1] == '|' {
            shown.pop();
        }
        if shown.len() == 0 {
            *shown = copy_chars(placeholder);
        }
        false
    }
}


/// The bytes a world name may not hold are the characters `/ \ : ? " < > |`,
/// each a one-byte character: a name that holds one is refused for it when
/// it is not empty, and a name of 1 to 20 bytes that holds none is taken.
pub proof fn lemma_illegal_name_characters(b: u8, name: Seq<u8>)
    ensures
        is_illegal_name_byte(b) <==> seq!['/', '\\', ':', '?', '"', '<', '>', '|'].contains(b as char),
        name.len() > 0 && (exists|i: int| 0 <= i < name.len() && #[trigger] name[i] as char == ':')
            ==> world_name_check(name) == Err::<(), WorldNameError>(WorldNameError::IllegalCharacters),
        0 < name.len() <= 20 && (forall|i: int|
            0 <= i < name.len() ==> !seq!['/', '\\', ':', '?', '"', '<', '>', '|'].contains(
                #[trigger] name[i] as char,
            )) ==> world_name_check(name) == Ok::<(), WorldNameError>(()),
{
    let ill = seq!['/', '\\', ':', '?', '"', '<', '>', '|'];
    assert(ill[0] == '/' && ill[1] == '\\' && ill[2] == ':' && ill[3] == '?' && ill[4] == '"' && ill[5] == '<'
        && ill[6] == '>' && ill[7] == '|');
    assert forall|x: u8| is_illegal_name_byte(x) <==> ill.contains(x as char) by {
        if is_illegal_name_byte(x) {
            if x == 47 { assert(ill[0] == x as char); }
            else if x == 92 { assert(ill[1] == x as char); }
            else if x == 58 { assert(ill[2] == x as char); }
            else if x == 63 { assert(ill[3] == x as char); }
            else if x == 34 { assert(ill[4] == x as char); }
            else if x == 60 { assert(ill[5] == x as char); }
            else if x == 62 { assert(ill[6] == x as char); }
            else { assert(ill[7] == x as char); }
        }
    }
    if name.len() > 0 && (exists|i: int| 0 <= i < name.len() && #[trigger] name[i] as char == ':') {
        let i = choose|i: int| 0 <= i < name.len() && #[trigger] name[i] as char == ':';
        assert(is_illegal_name_byte(name[i]));
    }
    if 0 < name.len() <= 20 && (forall|i: int|
        0 <= i < name.len() ==> !ill.contains(#[trigger] name[i] as char)) {
        assert(!has_illegal_byte(name)) by {
            if has_illegal_byte(name) {
                let i = choose|i: int| 0 <= i < name.len() && #[trigger] is_illegal_name_byte(name[i]);
                assert(ill.contains(name[i] as char));
            }
        }
    }
}

} // verus!
