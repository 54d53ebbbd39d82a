//! How a filter announces itself to the updater: by a random identifier, after which its queue is
//! named.

use vstd::arithmetic::power;
use vstd::prelude::*;

use crate::text;

verus! {

/// The lower case hexadecimal digit of a value below 16.
pub open spec fn hex_char(d: int) -> char {
    if d < 10 {
        ('0' as int + d) as char
    } else {
        ('a' as int + d - 10) as char
    }
}

/// Digit `k` of an identifier in hexadecimal notation, from the left.
pub open spec fn hex_digit(x: u128, k: int) -> char {
    hex_char(x as int / power::pow(16, (31 - k) as nat) % 16)
}

/// An identifier in the usual notation of a UUID: 32 hexadecimal digits, with hyphens after 8, 12,
/// 16 and 20 of them.
pub open spec fn uuid_notation(x: u128) -> Seq<char> {
    Seq::new(
        36,
        |i: int|
            if i == 8 || i == 13 || i == 18 || i == 23 {
                '-'
            } else if i < 8 {
                hex_digit(x, i)
            } else if i < 13 {
                hex_digit(x, i - 1)
            } else if i < 18 {
                hex_digit(x, i - 2)
            } else if i < 23 {
                hex_digit(x, i - 3)
            } else {
                hex_digit(x, i - 4)
            },
    )
}

/// The identifier is a random UUID: of version 4, in the variant of RFC 4122.
pub open spec fn is_random_uuid(x: u128) -> bool {
    x / 0x1000_0000_0000_0000_0000 % 16 == 4 && x / 0x4000_0000_0000_0000 % 4 == 2
}

/// `uuid::Uuid::new_v4`: a random UUID, by its value. Which one is left to chance.
#[verifier::external_body]
pub(crate) fn new_uuid() -> (r: u128)
    ensures
        is_random_uuid(r),
{
    uuid::Uuid::new_v4().as_u128()
}

/// `uuid::Uuid::to_string`: the usual notation of a UUID.
#[verifier::external_body]
pub(crate) fn uuid_text(x: u128) -> (r: String)
    ensures
        r@ == uuid_notation(x),
{
    uuid::Uuid::from_u128(x).to_string()
}

/// The name of the queue on which workers announce themselves.
pub open spec fn names_queue() -> Seq<char> {
    "crowdsec_worker_names"@
}

/// The name of the queue on which workers announce themselves.
pub fn worker_names_queue() -> (r: String)
    ensures
        r@ == names_queue(),
{
    "crowdsec_worker_names".to_owned()
}

/// The VM of the workers, which registers their queues.
pub fn worker_vm() -> (r: String)
    ensures
        r@ == "crowdsec_filter"@,
{
    "crowdsec_filter".to_owned()
}

/// The name of the queue on which a worker receives messages.
pub open spec fn queue_name(worker: Seq<char>) -> Seq<char> {
    "crowdsec_worker_"@ + worker
}

/// The name of the queue on which a worker receives messages.
pub fn worker_queue_name(worker: &str) -> (r: String)
    ensures
        r@ == queue_name(worker@),
{
    let mut name: String = "crowdsec_worker_".to_owned();
    name.append(worker);
    name
}

/// The bytes with which a worker announces itself.
pub open spec fn announcement(worker: u128) -> Seq<u8> {
    vstd::utf8::encode_utf8(uuid_notation(worker))
}

/// The bytes with which a worker announces itself.
pub fn worker_announcement(worker: u128) -> (r: Vec<u8>)
    ensures
        r@ == announcement(worker),
{
    let name: String = uuid_text(worker);
    name.as_str().as_bytes_vec()
}

/// The queue of the worker that announced itself with these bytes; `None` where they are not
/// UTF-8.
pub open spec fn announced_queue(payload: Seq<u8>) -> Option<Seq<char>> {
    if vstd::utf8::valid_utf8(payload) {
        Some(queue_name(vstd::utf8::decode_utf8(payload)))
    } else {
        None
    }
}

/// The queue of the worker that announced itself with these bytes.
pub fn announced_worker_queue(payload: &[u8]) -> (r: Option<String>)
    ensures
        r is Some <==> announced_queue(payload@) is Some,
        r matches Some(name) ==> announced_queue(payload@) == Some(name@),
{
    match text::decode_text(payload) {
        Some(worker) => Some(worker_queue_name(worker.as_str())),
        None => None,
    }
}

/// The updater looks for the worker that announced itself under the name that the worker gave its
/// queue.
pub proof fn law_announced_queue_is_the_workers(worker: u128)
    ensures
        announced_queue(announcement(worker)) == Some(queue_name(uuid_notation(worker))),
{
    vstd::utf8::encode_utf8_valid_utf8(uuid_notation(worker));
    vstd::utf8::encode_utf8_decode_utf8(uuid_notation(worker));
}

/// 32 hexadecimal digits write every identifier.
proof fn lemma_identifiers_fit()
    ensures
        power::pow(16, 32) == u128::MAX + 1,
{
    power::lemma_pow1(16);
    power::lemma_pow_adds(16, 1, 1);
    assert(power::pow(16, 2) == 0x100);
    power::lemma_pow_adds(16, 2, 2);
    assert(power::pow(16, 4) == 0x1_0000) by (nonlinear_arith)
        requires
            power::pow(16, 4) == power::pow(16, 2) * power::pow(16, 2),
            power::pow(16, 2) == 0x100,
    ;
    power::lemma_pow_adds(16, 4, 4);
    assert(power::pow(16, 8) == 0x1_0000_0000) by (nonlinear_arith)
        requires
            power::pow(16, 8) == power::pow(16, 4) * power::pow(16, 4),
            power::pow(16, 4) == 0x1_0000,
    ;
    power::lemma_pow_adds(16, 8, 8);
    assert(power::pow(16, 16) == 0x1_0000_0000_0000_0000) by (nonlinear_arith)
        requires
            power::pow(16, 16) == power::pow(16, 8) * power::pow(16, 8),
            power::pow(16, 8) == 0x1_0000_0000,
    ;
    power::lemma_pow_adds(16, 16, 16);
    assert(power::pow(16, 32) == u128::MAX + 1) by (nonlinear_arith)
        requires
            power::pow(16, 32) == power::pow(16, 16) * power::pow(16, 16),
            power::pow(16, 16) == 0x1_0000_0000_0000_0000,
    ;
}

proof fn lemma_digits_determine(x: u128, y: u128, n: nat)
    requires
        n <= 32,
        forall|k: int| 32 - n <= k < 32 ==> #[trigger] hex_digit(x, k) == hex_digit(y, k),
    ensures
        x as int % power::pow(16, n) == y as int % power::pow(16, n),
    decreases n,
{
    power::lemma_pow0(16);
    if n > 0 {
        let m = (n - 1) as nat;
        lemma_digits_determine(x, y, m);
        let p = power::pow(16, m);
        power::lemma_pow_positive(16, m);
        power::lemma_pow1(16);
        assert(power::pow(16, n) == p * 16) by {
            power::lemma_pow_adds(16, m, 1);
        }
        assert(hex_digit(x, 32 - n) == hex_digit(y, 32 - n));
        assert((31 - (32 - n)) as nat == m);
        let dx = x as int / p % 16;
        let dy = y as int / p % 16;
        assert(hex_char(dx) == hex_char(dy));
        assert(dx == dy) by {
            assert('0' as int == 48 && 'a' as int == 97);
        }
        vstd::arithmetic::div_mod::lemma_mod_breakdown(x as int, p, 16);
        vstd::arithmetic::div_mod::lemma_mod_breakdown(y as int, p, 16);
    }
}

/// Different workers have different queues.
pub proof fn law_queues_are_distinct(x: u128, y: u128)
    requires
        x != y,
    ensures
        queue_name(uuid_notation(x)) != queue_name(uuid_notation(y)),
{
    if queue_name(uuid_notation(x)) == queue_name(uuid_notation(y)) {
        let n = "crowdsec_worker_"@.len() as int;
        assert(queue_name(uuid_notation(x)).skip(n) =~= uuid_notation(x));
        assert(queue_name(uuid_notation(y)).skip(n) =~= uuid_notation(y));
        let u = uuid_notation(x);
        let v = uuid_notation(y);
        assert forall|k: int| 0 <= k < 32 implies #[trigger] hex_digit(x, k) == hex_digit(y, k) by {
            let i = if k < 8 {
                k
            } else if k < 12 {
                k + 1
            } else if k < 16 {
                k + 2
            } else if k < 20 {
                k + 3
            } else {
                k + 4
            };
            assert(u[i] == hex_digit(x, k));
            assert(v[i] == hex_digit(y, k));
        }
        lemma_digits_determine(x, y, 32);
        lemma_identifiers_fit();
        vstd::arithmetic::div_mod::lemma_small_mod(x as nat, power::pow(16, 32) as nat);
        vstd::arithmetic::div_mod::lemma_small_mod(y as nat, power::pow(16, 32) as nat);
    }
}

/// The queue of a worker is named by the same beginning and the text of the worker, and workers
/// announce themselves on one queue of a fixed name.
pub proof fn law_queue_names(worker: Seq<char>)
    ensures
        queue_name(worker) == "crowdsec_worker_"@ + worker,
        names_queue() == "crowdsec_worker_names"@,
{
}

/// Every text with which a worker announces itself leads to the queue of that text, and bytes that
/// are no text lead to none.
pub proof fn law_announced_text_names_the_queue(worker: Seq<char>, payload: Seq<u8>)
    ensures
        announced_queue(vstd::utf8::encode_utf8(worker)) == Some("crowdsec_worker_"@ + worker),
        announced_queue(payload) is Some <==> vstd::utf8::valid_utf8(payload),
{
    vstd::utf8::encode_utf8_valid_utf8(worker);
    vstd::utf8::encode_utf8_decode_utf8(worker);
}

/// A worker announces itself with the text of its notation, and with no other bytes.
pub proof fn law_announcement_is_the_notation(worker: u128)
    ensures
        vstd::utf8::valid_utf8(announcement(worker)),
        vstd::utf8::decode_utf8(announcement(worker)) == uuid_notation(worker),
        announcement(worker) == vstd::utf8::encode_utf8(uuid_notation(worker)),
{
    vstd::utf8::encode_utf8_valid_utf8(uuid_notation(worker));
    vstd::utf8::encode_utf8_decode_utf8(uuid_notation(worker));
}

} // verus!
