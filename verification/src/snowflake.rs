use vstd::prelude::*;

verus! {

/// The largest value of an `i64`, as a mathematical integer.
pub open spec fn i64_max() -> int {
    0x7fff_ffff_ffff_ffff
}

/// The magnitude of the smallest `i64`.
pub open spec fn i64_min_magnitude() -> int {
    0x8000_0000_0000_0000
}

/// Why a string is not a decimal `i64`, with the same kinds as the standard
/// library distinguishes.
#[derive(Debug, Clone, Copy, PartialEq, Eq, Structural)]
pub enum ParseIntError {
    Empty,
    InvalidDigit,
    PosOverflow,
    NegOverflow,
}

impl ParseIntError {
    /// The text that the standard library gives for an error of this kind.
    pub fn message(&self) -> (s: &'static str)
        ensures
            s@ == (match *self {
                ParseIntError::Empty => "cannot parse integer from empty string"@,
                ParseIntError::InvalidDigit => "invalid digit found in string"@,
                ParseIntError::PosOverflow => "number too large to fit in target type"@,
                ParseIntError::NegOverflow => "number too small to fit in target type"@,
            }),
    {
        match self {
            ParseIntError::Empty => "cannot parse integer from empty string",
            ParseIntError::InvalidDigit => "invalid digit found in string",
            ParseIntError::PosOverflow => "number too large to fit in target type",
            ParseIntError::NegOverflow => "number too small to fit in target type",
        }
    }
}

pub open spec fn is_digit(b: u8) -> bool {
    48 <= b <= 57
}

/// Number of leading ASCII digits of `s`.
pub open spec fn digit_run(s: Seq<u8>) -> nat
    decreases s.len(),
{
    if s.len() == 0 {
        0
    } else if is_digit(s[0]) {
        1 + digit_run(s.drop_first())
    } else {
        0
    }
}

/// Decimal value of a sequence of ASCII digits.
pub open spec fn digits_value(s: Seq<u8>) -> int
    decreases s.len(),
{
    if s.len() == 0 {
        0
    } else {
        digits_value(s.drop_last()) * 10 + (s.last() - 48)
    }
}

/// What parsing the bytes `s` as a decimal `i64` gives: an optional sign,
/// then digits. The first non-digit, or the first digit at which the value
/// leaves the range of `i64`, decides the error; an overflow in the digits
/// before a non-digit is reported as an overflow.
pub open spec fn parse_i64_spec(s: Seq<u8>) -> Result<i64, ParseIntError> {
    if s.len() == 0 {
        Err(ParseIntError::Empty)
    } else {
        let signed = s[0] == 43u8 || s[0] == 45u8;
        let negative = s[0] == 45u8;
        let digits = if signed { s.drop_first() } else { s };
        let run = digit_run(digits);
        let value = digits_value(digits.take(run as int));
        if signed && digits.len() == 0 {
            Err(ParseIntError::InvalidDigit)
        } else if !negative && value > i64_max() {
            Err(ParseIntError::PosOverflow)
        } else if negative && value > i64_min_magnitude() {
            Err(ParseIntError::NegOverflow)
        } else if run < digits.len() {
            Err(ParseIntError::InvalidDigit)
        } else if negative {
            Ok((-value) as i64)
        } else {
            Ok(value as i64)
        }
    }
}

proof fn lemma_digit_run(s: Seq<u8>, i: int)
    requires
        0 <= i <= s.len(),
        forall|j: int| 0 <= j < i ==> is_digit(#[trigger] s[j]),
        i == s.len() || !is_digit(s[i]),
    ensures
        digit_run(s) == i,
    decreases i,
{
    if i > 0 {
        lemma_digit_run(s.drop_first(), i - 1);
    }
}

proof fn lemma_digits_value_step(s: Seq<u8>, i: int)
    requires
        0 <= i < s.len(),
    ensures
        digits_value(s.take(i + 1)) == digits_value(s.take(i)) * 10 + (s[i] - 48),
{
    assert(s.take(i + 1).drop_last() =~= s.take(i));
}

proof fn lemma_digits_value_monotone(s: Seq<u8>, i: int, k: int)
    requires
        0 <= i <= k <= s.len(),
        forall|j: int| 0 <= j < k ==> is_digit(#[trigger] s[j]),
    ensures
        digits_value(s.take(i)) <= digits_value(s.take(k)),
    decreases k - i,
{
    if i < k {
        lemma_digits_value_monotone(s, i, k - 1);
        lemma_digits_value_step(s, k - 1);
        assert(is_digit(s[k - 1]));
        assert(digits_value(s.take(k - 1)) >= 0) by {
            lemma_digits_value_nonneg(s.take(k - 1));
        }
    }
}

proof fn lemma_digits_value_nonneg(s: Seq<u8>)
    requires
        forall|j: int| 0 <= j < s.len() ==> is_digit(#[trigger] s[j]),
    ensures
        digits_value(s) >= 0,
    decreases s.len(),
{
    if s.len() > 0 {
        assert forall|j: int| 0 <= j < s.drop_last().len() implies is_digit(
            #[trigger] s.drop_last()[j],
        ) by {
            assert(s.drop_last()[j] == s[j]);
        }
        lemma_digits_value_nonneg(s.drop_last());
    }
}

/// Parses the bytes of a string as a decimal `i64`, as `str::parse::<i64>` does.
pub fn parse_i64(s: &[u8]) -> (r: Result<i64, ParseIntError>)
    ensures
        r == parse_i64_spec(s@),
{
    let len = s.len();
    if len == 0 {
        return Err(ParseIntError::Empty);
    }
    let first = s[0];
    let signed = first == 43u8 || first == 45u8;
    let negative = first == 45u8;
    let start: usize = if signed { 1 } else { 0 };
    let ghost digits = if signed { s@.drop_first() } else { s@ };
    if signed && len == 1 {
        assert(digits.len() == 0);
        return Err(ParseIntError::InvalidDigit);
    }
    let limit: u128 = if negative { 0x8000_0000_0000_0000 } else { 0x7fff_ffff_ffff_ffff };
    let mut acc: u128 = 0;
    let mut i: usize = start;
    while i < len
        invariant
            start <= i <= len,
            len == s@.len(),
            len > 0,
            signed == (s@[0] == 43u8 || s@[0] == 45u8),
            negative == (s@[0] == 45u8),
            digits == (if signed { s@.drop_first() } else { s@ }),
            digits.len() == len - start,
            start == (if signed { 1int } else { 0int }),
            forall|j: int| 0 <= j < digits.len() ==> digits[j] == s@[j + start],
            forall|j: int| 0 <= j < i - start ==> is_digit(#[trigger] digits[j]),
            acc == digits_value(digits.take(i - start)),
            acc <= limit,
            limit == (if negative { i64_min_magnitude() } else { i64_max() }),
        decreases len - i,
    {
        let b = s[i];
        proof {
            assert(digits[i - start] == b);
        }
        if b < 48u8 || b > 57u8 {
            proof {
                lemma_digit_run(digits, i - start);
            }
            return Err(ParseIntError::InvalidDigit);
        }
        let next = acc * 10 + ((b - 48u8) as u128);
        proof {
            lemma_digits_value_step(digits, i - start);
        }
        if next > limit {
            proof {
                let k = digit_run(digits);
                lemma_digit_run_bounds(digits);
                if k < i - start + 1 {
                    assert(is_digit(digits[k as int]));
                }
                lemma_digits_value_monotone(digits, i - start + 1, k as int);
            }
            if negative {
                return Err(ParseIntError::NegOverflow);
            } else {
                return Err(ParseIntError::PosOverflow);
            }
        }
        acc = next;
        i = i + 1;
    }
    proof {
        lemma_digit_run(digits, len - start);
        assert(digits.take(len - start) =~= digits);
    }
    if negative {
        if acc == 0x8000_0000_0000_0000u128 {
            Ok(-0x8000_0000_0000_0000i64)
        } else {
            let v = acc as i64;
            Ok(-v)
        }
    } else {
        Ok(acc as i64)
    }
}

/// The digit run is followed by a non-digit or the end, and all its bytes are digits.
proof fn lemma_digit_run_bounds(s: Seq<u8>)
    ensures
        digit_run(s) <= s.len(),
        forall|j: int| 0 <= j < digit_run(s) ==> is_digit(#[trigger] s[j]),
        digit_run(s) == s.len() || !is_digit(s[digit_run(s) as int]),
    decreases s.len(),
{
    if s.len() > 0 && is_digit(s[0]) {
        lemma_digit_run_bounds(s.drop_first());
        assert forall|j: int| 0 <= j < digit_run(s) implies is_digit(#[trigger] s[j]) by {
            if j > 0 {
                assert(s[j] == s.drop_first()[j - 1]);
            }
        }
    }
}

} // verus!

verus! {

/// Milliseconds from the UNIX epoch to the epoch of the service's identifiers.
pub const EPOCH_MILLIS: u64 = 1707168386;

/// Identifier of users, sessions, parties and messages: a 64-bit snowflake
/// whose high bits count milliseconds since the service epoch.
#[derive(Debug, Clone, Copy, PartialEq, Eq, Structural, Hash)]
pub struct Snowflake(pub i64);

#[verifier::external_type_specification]
#[verifier::external_body]
pub struct ExSnowflakeIdGenerator(snowflake::SnowflakeIdGenerator);

/// The machine identifier that a `snowflake::SnowflakeIdGenerator` was made with
/// (its public field `machine_id`).
pub uninterp spec fn generator_machine_id(generator: snowflake::SnowflakeIdGenerator) -> i32;

/// The node identifier that a `snowflake::SnowflakeIdGenerator` was made with
/// (its public field `node_id`).
pub uninterp spec fn generator_node_id(generator: snowflake::SnowflakeIdGenerator) -> i32;

/// The sequence counter of a `snowflake::SnowflakeIdGenerator` (its private
/// field `idx`): the low 12 bits of the identifier it gave last.
pub uninterp spec fn generator_counter(generator: snowflake::SnowflakeIdGenerator) -> u16;

/// The time field of a `snowflake::SnowflakeIdGenerator` (its private field
/// `last_time_millis`, milliseconds after its epoch): the high bits of the
/// identifiers it gives until its counter wraps.
pub uninterp spec fn generator_time(generator: snowflake::SnowflakeIdGenerator) -> i64;

/// The epoch of a `snowflake::SnowflakeIdGenerator` (its private field
/// `epoch`), in milliseconds after the UNIX epoch: the instant its time field
/// counts from.
pub uninterp spec fn generator_epoch_millis(generator: snowflake::SnowflakeIdGenerator) -> int;

/// The low 22 bits of an identifier that a generator of machine `machine`,
/// node `node` and counter `counter` gives: machine, node and counter side
/// by side (bits 17 to 21, 12 to 16 and 0 to 11).
pub open spec fn worker_and_sequence_bits(machine: int, node: int, counter: int) -> int {
    machine * 131072 + node * 4096 + counter
}

/// A generator whose machine and node identifiers fit their 5-bit fields.
pub open spec fn well_placed(generator: snowflake::SnowflakeIdGenerator) -> bool {
    0 <= generator_machine_id(generator) < 32 && 0 <= generator_node_id(generator) < 32
}

/// `id` is what one call of `generate` gives while it takes the generator from
/// `before` to `after`: the machine and node identifiers stay, the counter
/// advances by one modulo 4096, the time field changes exactly when the counter
/// wraps to 0, and (for a well placed generator) the identifier is the new time
/// field shifted left by 22 bits beside machine, node and new counter.
pub open spec fn generated_by(
    before: snowflake::SnowflakeIdGenerator,
    after: snowflake::SnowflakeIdGenerator,
    id: Snowflake,
) -> bool {
    &&& generator_machine_id(after) == generator_machine_id(before)
    &&& generator_node_id(after) == generator_node_id(before)
    &&& generator_epoch_millis(after) == generator_epoch_millis(before)
    &&& 0 <= generator_time(after)
    &&& generator_counter(after) == (generator_counter(before) + 1) % 4096
    &&& (generator_counter(after) != 0 ==> generator_time(after) == generator_time(before))
    &&& (generator_counter(after) == 0 ==> generator_time(after) != generator_time(before))
    &&& (well_placed(before) ==> id.0 & 0x3f_ffffi64 == worker_and_sequence_bits(
        generator_machine_id(before) as int,
        generator_node_id(before) as int,
        generator_counter(after) as int,
    ))
    &&& (well_placed(before) && 0 <= generator_time(after) < 0x200_0000_0000 ==> id.0 >> 22u64
        == generator_time(after))
}

/// `first` and then `second` are what two calls of `generate` give while they
/// take the generator from `before` to `after`.
pub open spec fn generated_two(
    before: snowflake::SnowflakeIdGenerator,
    after: snowflake::SnowflakeIdGenerator,
    first: Snowflake,
    second: Snowflake,
) -> bool {
    exists|middle: snowflake::SnowflakeIdGenerator|
        #[trigger] generated_by(before, middle, first) && generated_by(middle, after, second)
}

/// Calls `snowflake::SnowflakeIdGenerator::with_epoch` with an epoch given in
/// milliseconds after the UNIX epoch. As its source shows, the generator keeps
/// the machine and node identifiers it is given and starts its counter at 0.
/// It keeps the epoch it is given. It reads the clock: its time field is the
/// clock's reading in whole milliseconds after the epoch, which is not stated
/// beyond its being at least 0 (the reading is cast to `i64`, which stays
/// non-negative while the clock reads less than about 292 million years past
/// the epoch). It panics when the clock reads before the epoch: `requires`
/// keeps the epoch no later than the service epoch (20 January 1970); a clock
/// set before that is not ruled out.
#[verifier::external_body]
fn snowflake_generator_with_epoch(
    machine_id: i32,
    node_id: i32,
    epoch_millis: u64,
) -> (g: snowflake::SnowflakeIdGenerator)
    requires
        epoch_millis <= EPOCH_MILLIS,
    ensures
        generator_machine_id(g) == machine_id,
        generator_node_id(g) == node_id,
        generator_epoch_millis(g) == epoch_millis,
        generator_counter(g) == 0,
        0 <= generator_time(g),
{
    snowflake::SnowflakeIdGenerator::with_epoch(
        machine_id,
        node_id,
        std::time::UNIX_EPOCH + std::time::Duration::from_millis(epoch_millis),
    )
}

/// Calls `snowflake::SnowflakeIdGenerator::generate`. As its source shows, the
/// counter advances by one modulo 4096; only when it wraps to 0 does the
/// generator read the clock, and then its time field changes (it waits while
/// the clock still shows the old value); the machine and node identifiers and
/// the epoch stay. The time field, a clock reading taken when the generator was
/// made or its counter last wrapped, is at least 0, as in `with_epoch`.
/// The identifier is the time field shifted left by 22 bits, or-ed with the
/// machine identifier shifted by 17, the node identifier shifted by 12 and the
/// counter: when machine and node lie below 32, its low 22 bits are exactly
/// those three, and when the time field also fits in 41 bits the bits above
/// are exactly the time field. Which time the clock gives is not stated.
#[verifier::external_body]
fn snowflake_generate(generator: &mut snowflake::SnowflakeIdGenerator) -> (id: i64)
    ensures
        generator_machine_id(*final(generator)) == generator_machine_id(*old(generator)),
        generator_node_id(*final(generator)) == generator_node_id(*old(generator)),
        generator_epoch_millis(*final(generator)) == generator_epoch_millis(*old(generator)),
        generator_counter(*final(generator)) == (generator_counter(*old(generator)) + 1) % 4096,
        generator_counter(*final(generator)) != 0 ==> generator_time(*final(generator))
            == generator_time(*old(generator)),
        generator_counter(*final(generator)) == 0 ==> generator_time(*final(generator))
            != generator_time(*old(generator)),
        0 <= generator_time(*final(generator)),
        0 <= generator_machine_id(*old(generator)) < 32 && 0 <= generator_node_id(*old(generator))
            < 32 ==> id & 0x3f_ffffi64 == worker_and_sequence_bits(
            generator_machine_id(*old(generator)) as int,
            generator_node_id(*old(generator)) as int,
            generator_counter(*final(generator)) as int,
        ),
        0 <= generator_machine_id(*old(generator)) < 32 && 0 <= generator_node_id(*old(generator))
            < 32 && 0 <= generator_time(*final(generator)) < 0x200_0000_0000 ==> id >> 22u64
            == generator_time(*final(generator)),
{
    generator.generate()
}

/// What `std::time::Duration::new` returns for whole seconds and nanoseconds.
pub uninterp spec fn duration_new_result(secs: u64, nanos: u32) -> std::time::Duration;

/// Calls `std::time::Duration::new`; the result is the duration of `secs`
/// seconds and `nanos` nanoseconds. It panics only when the nanoseconds carry
/// into seconds that overflow, which `requires` rules out.
#[verifier::external_body]
fn duration_new(secs: u64, nanos: u32) -> (d: std::time::Duration)
    requires
        nanos < 1_000_000_000,
    ensures
        d == duration_new_result(secs, nanos),
{
    std::time::Duration::new(secs, nanos)
}

/// Milliseconds since the UNIX epoch at which a snowflake was made: its high
/// bits (shifted right arithmetically by 22, then read as unsigned) plus the
/// service epoch.
pub open spec fn created_at_millis_spec(id: i64) -> int {
    ((id >> 22u64) as u64) + EPOCH_MILLIS
}

impl Snowflake {
    /// The generator of fresh identifiers: machine 0, node 0, the service epoch.
    pub fn id_generator() -> (g: snowflake::SnowflakeIdGenerator)
        ensures
            generator_machine_id(g) == 0,
            generator_node_id(g) == 0,
            generator_epoch_millis(g) == EPOCH_MILLIS,
            generator_counter(g) == 0,
            0 <= generator_time(g),
    {
        snowflake_generator_with_epoch(0, 0, EPOCH_MILLIS)
    }

    /// A fresh identifier from `generator`: the generator's counter advances by
    /// one modulo 4096 and becomes the identifier's low 12 bits, next to the
    /// generator's machine and node identifiers; the bits above carry the
    /// generator's time field, which changes when the counter wraps.
    pub fn generate(generator: &mut snowflake::SnowflakeIdGenerator) -> (id: Snowflake)
        ensures
            generated_by(*old(generator), *final(generator), id),
    {
        Snowflake(snowflake_generate(generator))
    }

    /// Parses a decimal identifier.
    pub fn try_from(value: String) -> (r: Result<Snowflake, ParseIntError>)
        ensures
            r == (match parse_i64_spec(vstd::utf8::encode_utf8(value@)) {
                Ok(v) => Ok(Snowflake(v)),
                Err(e) => Err(e),
            }),
    {
        let s: &str = value.as_str();
        match parse_i64(s.as_bytes()) {
            Ok(v) => Ok(Snowflake(v)),
            Err(e) => Err(e),
        }
    }

    /// Milliseconds since the UNIX epoch at which this identifier was made.
    pub fn created_at_millis(&self) -> (ms: u128)
        ensures
            ms == created_at_millis_spec(self.0),
    {
        let high: u64 = (self.0 >> 22u64) as u64;
        high as u128 + EPOCH_MILLIS as u128
    }

    /// Time since the UNIX epoch at which this identifier was made.
    pub fn created_at_timestamp(&self) -> (d: std::time::Duration)
        ensures
            d == duration_new_result(
                (created_at_millis_spec(self.0) / 1000) as u64,
                ((created_at_millis_spec(self.0) % 1000) * 1_000_000) as u32,
            ),
    {
        let ms = self.created_at_millis();
        let secs: u64 = (ms / 1000) as u64;
        let nanos: u32 = ((ms % 1000) * 1_000_000) as u32;
        duration_new(secs, nanos)
    }

}

} // verus!

verus! {

/// The decimal digit `d` as a character.
pub open spec fn digit_char(d: int) -> char {
    if d == 0 {
        '0'
    } else if d == 1 {
        '1'
    } else if d == 2 {
        '2'
    } else if d == 3 {
        '3'
    } else if d == 4 {
        '4'
    } else if d == 5 {
        '5'
    } else if d == 6 {
        '6'
    } else if d == 7 {
        '7'
    } else if d == 8 {
        '8'
    } else {
        '9'
    }
}

/// The decimal digits of `n`, without leading zeros.
pub open spec fn nat_decimal(n: nat) -> Seq<char>
    decreases n,
{
    if n < 10 {
        seq![digit_char(n as int)]
    } else {
        nat_decimal(n / 10).push(digit_char((n % 10) as int))
    }
}

/// The decimal text of `x`, with a leading `-` when it is negative.
pub open spec fn i64_decimal(x: i64) -> Seq<char> {
    if x < 0 {
        seq!['-'] + nat_decimal((-x) as nat)
    } else {
        nat_decimal(x as nat)
    }
}

/// Calls `ToString::to_string` on an `i64`, which writes its decimal text
/// (the `Display` of the integer types).
#[verifier::external_body]
fn i64_to_string(x: i64) -> (s: String)
    ensures
        s@ == i64_decimal(x),
{
    x.to_string()
}

impl Snowflake {
    /// The identifier in decimal, as it travels in paths and socket events.
    pub fn to_string(&self) -> (s: String)
        ensures
            s@ == i64_decimal(self.0),
    {
        i64_to_string(self.0)
    }
}

proof fn lemma_digit_char(d: int)
    requires
        0 <= d < 10,
    ensures
        digit_char(d) as u8 == 48 + d,
        (digit_char(d) as u32) < 128,
{
}

proof fn lemma_nat_decimal(n: nat)
    ensures
        vstd::utf8::is_ascii_chars(nat_decimal(n)),
        nat_decimal(n).len() > 0,
        forall|i: int| 0 <= i < nat_decimal(n).len() ==> is_digit(#[trigger] nat_decimal(n)[i] as u8),
        digits_value(Seq::new(nat_decimal(n).len(), |i: int| nat_decimal(n)[i] as u8)) == n,
    decreases n,
{
    let s = nat_decimal(n);
    let b = Seq::new(s.len(), |i: int| s[i] as u8);
    if n < 10 {
        lemma_digit_char(n as int);
        assert(b.drop_last() =~= Seq::<u8>::empty());
        assert(b.last() == s[0] as u8);
        assert(digits_value(b.drop_last()) == 0);
    } else {
        lemma_nat_decimal(n / 10);
        lemma_digit_char((n % 10) as int);
        let p = nat_decimal(n / 10);
        assert(b.drop_last() =~= Seq::new(p.len(), |i: int| p[i] as u8));
        assert(b.last() == s[s.len() - 1] as u8);
        assert(s[s.len() - 1] == digit_char((n % 10) as int));
        assert(digits_value(b) == digits_value(b.drop_last()) * 10 + (b.last() - 48));
        assert(digits_value(b) == (n / 10) * 10 + n % 10);
        assert forall|i: int| 0 <= i < s.len() implies is_digit(#[trigger] s[i] as u8) by {
            if i < p.len() {
                assert(s[i] == p[i]);
            }
        }
        assert(vstd::utf8::is_ascii_chars(s)) by {
            assert forall|i: int| 0 <= i < s.len() implies (#[trigger] s[i] as u32) < 128 by {
                if i < p.len() {
                    assert(s[i] == p[i]);
                }
            }
        }
    }
}

/// Two identifiers given one after the other by a well placed generator
/// differ: their counters, and so their low bits, differ.
pub proof fn law_consecutive_ids_differ(
    g0: snowflake::SnowflakeIdGenerator,
    g1: snowflake::SnowflakeIdGenerator,
    g2: snowflake::SnowflakeIdGenerator,
    first: Snowflake,
    second: Snowflake,
)
    requires
        well_placed(g0),
        generated_by(g0, g1, first),
        generated_by(g1, g2, second),
    ensures
        first != second,
{
    assert(generator_counter(g1) < 4096);
}

/// `id` comes no later than the state of `generator` in the order in which a
/// generator gives identifiers: from an earlier time field, or from the same
/// time field with a counter not beyond the generator's.
pub open spec fn precedes(id: Snowflake, generator: snowflake::SnowflakeIdGenerator) -> bool {
    ||| id.0 >> 22u64 < generator_time(generator)
    ||| (id.0 >> 22u64 == generator_time(generator) && id.0 & 0xfffi64 <= generator_counter(
        generator,
    ))
}

proof fn lemma_counter_bits(v: i64, m: i64, n: i64, k: i64)
    requires
        0 <= m < 32,
        0 <= n < 32,
        0 <= k < 4096,
        v & 0x3f_ffffi64 == m * 131072 + n * 4096 + k,
    ensures
        v & 0xfffi64 == k,
{
    assert(v & 0x3f_ffffi64 == m * 131072 + n * 4096 + k ==> v & 0xfffi64 == k) by (bit_vector)
        requires
            0 <= m < 32,
            0 <= n < 32,
            0 <= k < 4096,
    ;
}

/// `id` carries, below its counter, the machine and node identifiers of
/// `generator`, as every identifier that the generator gives does.
pub open spec fn same_worker(id: Snowflake, generator: snowflake::SnowflakeIdGenerator) -> bool {
    id.0 & 0x3f_ffffi64 == worker_and_sequence_bits(
        generator_machine_id(generator) as int,
        generator_node_id(generator) as int,
        (id.0 & 0xfffi64) as int,
    )
}

proof fn lemma_split_at_bit_22(v: i64)
    ensures
        v == (v >> 22u64) * 4194304 + (v & 0x3f_ffffi64),
        0 <= v & 0x3f_ffffi64 < 4194304,
{
    assert(v == (v >> 22u64) * 4194304 + (v & 0x3f_ffffi64)) by (bit_vector);
    assert(0 <= v & 0x3f_ffffi64 < 4194304) by (bit_vector);
}

/// An identifier given by a well placed generator whose time field fits in 41
/// bits and does not go backwards (its clock did not, should the counter have
/// wrapped) follows every identifier that preceded the generator: it differs
/// from each, is larger than each that carries the generator's machine and
/// node, and afterwards they and it all precede the generator.
pub proof fn law_generated_increases(
    before: snowflake::SnowflakeIdGenerator,
    after: snowflake::SnowflakeIdGenerator,
    id: Snowflake,
    earlier: Snowflake,
)
    requires
        well_placed(before),
        generator_counter(before) < 4096,
        0 <= generator_time(before) <= generator_time(after) < 0x200_0000_0000,
        generated_by(before, after, id),
    ensures
        precedes(earlier, before) ==> earlier != id && precedes(earlier, after),
        precedes(earlier, before) && same_worker(earlier, before) ==> earlier.0 < id.0
            && same_worker(earlier, after),
        precedes(id, after),
        same_worker(id, after),
        well_placed(after),
        generator_counter(after) < 4096,
{
    lemma_counter_bits(
        id.0,
        generator_machine_id(before) as i64,
        generator_node_id(before) as i64,
        generator_counter(after) as i64,
    );
    lemma_split_at_bit_22(id.0);
    lemma_split_at_bit_22(earlier.0);
    if generator_counter(after) != 0 {
        assert(generator_counter(after) == generator_counter(before) + 1);
    } else {
        assert(generator_time(after) > generator_time(before));
    }
}

/// An identifier given by a well placed generator made with the service epoch
/// was made, as `created_at_millis` reads it back, at the generator's epoch
/// plus its time field (while that field fits in 41 bits).
pub proof fn law_created_at_of_generated(
    before: snowflake::SnowflakeIdGenerator,
    after: snowflake::SnowflakeIdGenerator,
    id: Snowflake,
)
    requires
        well_placed(before),
        generator_epoch_millis(before) == EPOCH_MILLIS,
        generator_time(after) < 0x200_0000_0000,
        generated_by(before, after, id),
    ensures
        created_at_millis_spec(id.0) == generator_epoch_millis(after) + generator_time(after),
{
}

/// `ids[i]` is given while the generator goes from `gens[i]` to `gens[i + 1]`,
/// one call after another, and the generator's time field fits in 41 bits and
/// never goes backwards (its clock does not, when the counter wraps).
pub open spec fn orderly_run(
    gens: Seq<snowflake::SnowflakeIdGenerator>,
    ids: Seq<Snowflake>,
) -> bool {
    &&& gens.len() == ids.len() + 1
    &&& forall|i: int| 0 <= i < ids.len() ==> #[trigger] generated_by(gens[i], gens[i + 1], ids[i])
    &&& forall|i: int|
        0 <= i < ids.len() ==> 0 <= generator_time(#[trigger] gens[i]) <= generator_time(
            gens[i + 1],
        ) < 0x200_0000_0000
}

proof fn lemma_run_prefix(gens: Seq<snowflake::SnowflakeIdGenerator>, ids: Seq<Snowflake>, j: int)
    requires
        orderly_run(gens, ids),
        well_placed(gens[0]),
        generator_counter(gens[0]) < 4096,
        0 <= j <= ids.len(),
    ensures
        well_placed(gens[j]),
        generator_counter(gens[j]) < 4096,
        forall|i: int|
            0 <= i < j ==> precedes(#[trigger] ids[i], gens[j]) && same_worker(ids[i], gens[j]),
    decreases j,
{
    if j > 0 {
        lemma_run_prefix(gens, ids, j - 1);
        assert(generated_by(gens[j - 1], gens[j], ids[j - 1]));
        assert(0 <= generator_time(gens[j - 1]) <= generator_time(gens[j]) < 0x200_0000_0000);
        law_generated_increases(gens[j - 1], gens[j], ids[j - 1], ids[j - 1]);
        assert forall|i: int| 0 <= i < j implies precedes(#[trigger] ids[i], gens[j]) && same_worker(
            ids[i],
            gens[j],
        ) by {
            law_generated_increases(gens[j - 1], gens[j], ids[j - 1], ids[i]);
        }
    }
}

/// Identifiers given one after another by a well placed generator whose time
/// field never goes backwards strictly increase, so no two of them are equal.
pub proof fn law_later_ids_larger(
    gens: Seq<snowflake::SnowflakeIdGenerator>,
    ids: Seq<Snowflake>,
    i: int,
    j: int,
)
    requires
        orderly_run(gens, ids),
        well_placed(gens[0]),
        generator_counter(gens[0]) < 4096,
        0 <= i < j < ids.len(),
    ensures
        ids[i].0 < ids[j].0,
{
    lemma_run_prefix(gens, ids, j);
    assert(generated_by(gens[j], gens[j + 1], ids[j]));
    assert(0 <= generator_time(gens[j]) <= generator_time(gens[j + 1]) < 0x200_0000_0000);
    assert(precedes(ids[i], gens[j]) && same_worker(ids[i], gens[j]));
    law_generated_increases(gens[j], gens[j + 1], ids[j], ids[i]);
}

/// Parsing the decimal text of an integer gives the integer back.
pub proof fn law_decimal_roundtrip(x: i64)
    ensures
        parse_i64_spec(vstd::utf8::encode_utf8(i64_decimal(x))) == Ok::<i64, ParseIntError>(x),
{
    let chars = i64_decimal(x);
    let bytes = vstd::utf8::encode_utf8(chars);
    let n: nat = if x < 0 { (-x) as nat } else { x as nat };
    let d = nat_decimal(n);
    lemma_nat_decimal(n);
    let db = Seq::new(d.len(), |i: int| d[i] as u8);
    if x < 0 {
        assert(vstd::utf8::is_ascii_chars(chars)) by {
            assert forall|i: int| 0 <= i < chars.len() implies (#[trigger] chars[i] as u32) < 128 by {
                if i > 0 {
                    assert(chars[i] == d[i - 1]);
                }
            }
        }
        vstd::utf8::is_ascii_chars_encode_utf8(chars);
        assert(bytes[0] == 45u8);
        assert(bytes.drop_first() =~= db) by {
            assert forall|i: int| 0 <= i < db.len() implies bytes.drop_first()[i] == db[i] by {
                assert(chars[i + 1] == d[i]);
            }
        }
    } else {
        vstd::utf8::is_ascii_chars_encode_utf8(chars);
        assert(bytes =~= db);
        assert(is_digit(d[0] as u8));
    }
    assert forall|j: int| 0 <= j < db.len() implies is_digit(#[trigger] db[j]) by {
        assert(is_digit(d[j] as u8));
    }
    lemma_digit_run(db, db.len() as int);
    assert(db.take(db.len() as int) =~= db);
}

} // verus!
