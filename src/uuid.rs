//! Version 4 style UUIDs: sixteen bytes written as dashed upper case hex,
//! and the small xorshift generator that makes them from a seed.
use vstd::prelude::*;
use crate::text::{hex_char, digit_value, digit_of, push_hex_digit, chars_of};

verus! {

/// A xorshift128 pseudo-random generator.
#[derive(Clone, Copy, Debug)]
pub struct Rand {
    pub x: u32,
    pub y: u32,
    pub z: u32,
    pub w: u32,
}

pub const RAND_KX: u32 = 123456789;
pub const RAND_KY: u32 = 362436069;
pub const RAND_KZ: u32 = 521288629;
pub const RAND_KW: u32 = 88675123;

/// The generator seeded with `seed`.
pub open spec fn rand_seeded(seed: u32) -> Rand {
    Rand { x: RAND_KX ^ seed, y: RAND_KY ^ seed, z: RAND_KZ, w: RAND_KW }
}

/// The generator after one draw.
pub open spec fn rand_step(r: Rand) -> Rand {
    let t: u32 = r.x ^ ((r.x << 11u32) as u32);
    Rand { x: r.y, y: r.z, z: r.w, w: r.w ^ (r.w >> 19u32) ^ t ^ (t >> 8u32) }
}

/// The generator after `n` draws.
pub open spec fn rand_after(r: Rand, n: nat) -> Rand
    decreases n,
{
    if n == 0 {
        r
    } else {
        rand_step(rand_after(r, (n - 1) as nat))
    }
}

/// The `n`-th number drawn, counting from zero: the new `w` of that draw.
pub open spec fn rand_draw(r: Rand, n: nat) -> u32 {
    rand_after(r, n + 1).w
}

impl Rand {
    /// A generator seeded with `seed`.
    pub fn new(seed: u32) -> (r: Rand)
        ensures
            r == rand_seeded(seed),
    {
        Rand { x: RAND_KX ^ seed, y: RAND_KY ^ seed, z: RAND_KZ, w: RAND_KW }
    }

    /// Draws the next number.
    pub fn rand(&mut self) -> (r: u32)
        ensures
            *final(self) == rand_step(*old(self)),
            r == final(self).w,
    {
        let t: u32 = self.x ^ (self.x << 11u32);
        self.x = self.y;
        self.y = self.z;
        self.z = self.w;
        self.w = self.w ^ (self.w >> 19u32) ^ t ^ (t >> 8u32);
        self.w
    }

    /// Draws a number from `a` to `b`, both included.
    pub fn gen_range(&mut self, a: i32, b: i32) -> (r: i32)
        requires
            a <= b,
            b - a < u32::MAX,
        ensures
            *final(self) == rand_step(*old(self)),
            r == a + final(self).w as int % (b - a + 1),
            a <= r <= b,
    {
        let m: u32 = (b as i64 - a as i64 + 1) as u32;
        let v = self.rand();
        (a as i64 + (v % m) as i64) as i32
    }
}

/// The text of one byte: two upper case hex digits.
pub open spec fn byte_text(b: u8) -> Seq<char> {
    seq![hex_char((b / 16) as nat), hex_char((b % 16) as nat)]
}

/// A dash comes before the bytes at these positions.
pub open spec fn dash_before(i: int) -> bool {
    i == 4 || i == 6 || i == 8 || i == 10
}

/// The text of the first `n` bytes of `v`.
pub open spec fn uuid_text(v: Seq<u8>, n: nat) -> Seq<char>
    decreases n,
{
    if n == 0 {
        seq![]
    } else {
        let i = n - 1;
        let prev = uuid_text(v, (n - 1) as nat);
        if dash_before(i) {
            prev + seq!['-'] + byte_text(v[i])
        } else {
            prev + byte_text(v[i])
        }
    }
}

/// The characters of `s` other than dashes.
pub open spec fn without_dashes(s: Seq<char>) -> Seq<char>
    decreases s.len(),
{
    if s.len() == 0 {
        seq![]
    } else if s.last() == '-' {
        without_dashes(s.drop_last())
    } else {
        without_dashes(s.drop_last()).push(s.last())
    }
}

/// The byte that two characters spell in hex, with an optional leading `+`
/// standing for a single digit; `0` where they spell none.
pub open spec fn pair_value(a: char, b: char) -> u8 {
    if a == '+' {
        match digit_value(b, 16) {
            Some(d) => d as u8,
            None => 0,
        }
    } else {
        match (digit_value(a, 16), digit_value(b, 16)) {
            (Some(h), Some(l)) => (h * 16 + l) as u8,
            _ => 0,
        }
    }
}

/// The bytes read from UUID text: the text without its dashes, two digits
/// per byte, with `0` for each pair that is missing or not hex.
pub open spec fn uuid_bytes_of_text(s: Seq<char>) -> Seq<u8> {
    let c = without_dashes(s);
    Seq::new(16, |i: int| if 2 * i + 1 < c.len() { pair_value(c[2 * i], c[2 * i + 1]) } else { 0 })
}

/// The bytes a generator seeded with `seed` gives: one draw per byte, the
/// seventh byte holding the version nibble `4`.
pub open spec fn generated_bytes(seed: u32) -> Seq<u8> {
    Seq::new(
        16,
        |i: int|
            if i == 6 {
                (64 + rand_draw(rand_seeded(seed), i as nat) % 16) as u8
            } else {
                (rand_draw(rand_seeded(seed), i as nat) % 256) as u8
            },
    )
}

/// A 16 byte UUID.
#[derive(Clone, Copy, Debug, PartialEq, Eq)]
pub struct NP_UUID {
    /// The bytes of the UUID.
    pub value: [u8; 16],
}

impl Default for NP_UUID {
    /// The UUID of sixteen zero bytes.
    fn default() -> (r: NP_UUID)
        ensures
            r.value@ == Seq::new(16, |i: int| 0u8),
    {
        let value: [u8; 16] = [0u8; 16];
        assert(value@ =~= Seq::new(16, |i: int| 0u8));
        NP_UUID { value }
    }
}

impl NP_UUID {
    /// A UUID made from a generator seeded with `random_seed`.
    pub fn generate(random_seed: u32) -> (r: NP_UUID)
        ensures
            r.value@ == generated_bytes(random_seed),
    {
        let mut value: [u8; 16] = [0u8; 16];
        let mut rng = Rand::new(random_seed);
        let ghost start = rng;
        let mut x: usize = 0;
        while x < 16
            invariant
                x <= 16,
                value@.len() == 16,
                start == rand_seeded(random_seed),
                rng == rand_after(start, x as nat),
                forall|j: int| 0 <= j < x ==> value@[j] == generated_bytes(random_seed)[j],
            decreases 16 - x,
        {
            if x == 6 {
                let d = rng.gen_range(0, 15);
                value[x] = (64 + d) as u8;
            } else {
                let d = rng.gen_range(0, 255);
                value[x] = d as u8;
            }
            x = x + 1;
        }
        assert(value@ =~= generated_bytes(random_seed));
        NP_UUID { value }
    }

    /// A UUID whose bytes come from `random_fn`, one call per byte; the
    /// seventh byte is moved into the range `63..=79`.
    pub fn generate_with_rand<F: Fn() -> u8>(random_fn: F) -> (r: NP_UUID)
        requires
            call_requires(random_fn, ()),
        ensures
            forall|i: int|
                0 <= i < 16 && i != 6 ==> call_ensures(random_fn, (), #[trigger] r.value@[i]),
            exists|b: u8| call_ensures(random_fn, (), b) && r.value@[6] == 63 + b % 17,
    {
        let mut value: [u8; 16] = [0u8; 16];
        let mut x: usize = 0;
        let ghost mut drawn: u8 = 0;
        while x < 16
            invariant
                x <= 16,
                value@.len() == 16,
                call_requires(random_fn, ()),
                forall|j: int|
                    0 <= j < x && j != 6 ==> call_ensures(random_fn, (), #[trigger] value@[j]),
                x > 6 ==> call_ensures(random_fn, (), drawn) && value@[6] == 63 + drawn % 17,
            decreases 16 - x,
        {
            let b = random_fn();
            if x == 6 {
                proof {
                    drawn = b;
                }
                value[x] = 64 + (b % 17) - 1;
            } else {
                value[x] = b;
            }
            x = x + 1;
        }
        NP_UUID { value }
    }

    /// Reads UUID text such as `48E6AAB0-7DF5-409F-4D57-4D969FA065EE`: dashes
    /// are skipped, each following pair of hex digits (either case) makes a
    /// byte, and a pair that is missing or not hex leaves a `0`.
    pub fn from_string(uuid: &str) -> (r: NP_UUID)
        ensures
            r.value@ == uuid_bytes_of_text(uuid@),
    {
        let all = chars_of(uuid);
        NP_UUID::from_chars(&all)
    }

    /// Reads UUID text given as characters, as `from_string` does.
    pub fn from_chars(all: &Vec<char>) -> (r: NP_UUID)
        ensures
            r.value@ == uuid_bytes_of_text(all@),
    {
        let ghost uuid = all@;
        let mut cleaned: Vec<char> = Vec::new();
        let mut i: usize = 0;
        while i < all.len()
            invariant
                i <= all@.len(),
                all@ == uuid,
                cleaned@ == without_dashes(all@.subrange(0, i as int)),
            decreases all@.len() - i,
        {
            let ghost pre = all@.subrange(0, i as int);
            assert(all@.subrange(0, i + 1).drop_last() == pre);
            if all[i] != '-' {
                cleaned.push(all[i]);
            }
            i = i + 1;
        }
        assert(all@.subrange(0, all@.len() as int) == all@);
        let mut value: [u8; 16] = [0u8; 16];
        let mut x: usize = 0;
        while x < 16
            invariant
                x <= 16,
                value@.len() == 16,
                cleaned@ == without_dashes(uuid),
                forall|j: int| 0 <= j < x ==> value@[j] == uuid_bytes_of_text(uuid)[j],
                forall|j: int| x <= j < 16 ==> value@[j] == 0,
            decreases 16 - x,
        {
            let step = x * 2;
            if step + 1 < cleaned.len() {
                let b = hex_pair(cleaned[step], cleaned[step + 1]);
                value[x] = b;
            }
            x = x + 1;
        }
        assert(value@ =~= uuid_bytes_of_text(uuid));
        NP_UUID { value }
    }

    /// The text of the UUID: upper case hex, dashes after the fourth, sixth,
    /// eighth and tenth bytes.
    pub fn to_string(&self) -> (r: String)
        ensures
            r@ == uuid_text(self.value@, 16),
    {
        uuid_bytes_text(self.value.as_slice())
    }
}

/// The UUID text of sixteen bytes.
pub fn uuid_bytes_text(b: &[u8]) -> (r: String)
    requires
        b@.len() == 16,
    ensures
        r@ == uuid_text(b@, 16),
{
    let mut result = String::new();
    let mut x: usize = 0;
    while x < 16
        invariant
            x <= 16,
            b@.len() == 16,
            result@ == uuid_text(b@, x as nat),
        decreases 16 - x,
    {
        let ghost before = result@;
        if x == 4 || x == 6 || x == 8 || x == 10 {
            result.append("-");
            proof {
                reveal_strlit("-");
            }
        }
        let byte = b[x];
        push_hex_digit(&mut result, byte / 16);
        push_hex_digit(&mut result, byte % 16);
        proof {
            if dash_before(x as int) {
                assert(result@ =~= before + seq!['-'] + byte_text(byte));
            } else {
                assert(result@ =~= before + byte_text(byte));
            }
        }
        x = x + 1;
    }
    result
}

/// The byte spelled by two characters, as `pair_value` says.
fn hex_pair(a: char, b: char) -> (r: u8)
    ensures
        r == pair_value(a, b),
{
    if a == '+' {
        match digit_of(b, 16) {
            Some(d) => d as u8,
            None => 0,
        }
    } else {
        match (digit_of(a, 16), digit_of(b, 16)) {
            (Some(h), Some(l)) => (h * 16 + l) as u8,
            _ => 0,
        }
    }
}

} // verus!
