//! The uplink body: the envelope rendered as the collector's JSON wire
//! format, written directly so that every byte of the body is pinned by
//! `spec_envelope_json`.
//!
//! The format is fixed:
//! `{"topic":{"Climate":{"temperature_celsius":T,"humidity":H,"co2_ppm":C}},"timestamp":S,"device_id":[B,...]}`
//! with T and H rendered from hundredths and the device id as a JSON
//! array of byte values.

use crate::numfmt::{fmt_centi, fmt_i32, fmt_i64, fmt_u64, spec_dec_centi, spec_dec_int, spec_dec_nat};
use crate::types::{MetricRequestBody, Topic};
use vstd::prelude::*;

verus! {

/// The bytes of `{"topic":{"Climate":{"temperature_celsius":`.
pub open spec fn spec_lit_obj_open() -> Seq<u8> {
    seq![123u8, 34u8, 116u8, 111u8, 112u8, 105u8, 99u8, 34u8, 58u8, 123u8, 34u8, 67u8, 108u8, 105u8, 109u8, 97u8, 116u8, 101u8, 34u8, 58u8, 123u8, 34u8, 116u8, 101u8, 109u8, 112u8, 101u8, 114u8, 97u8, 116u8, 117u8, 114u8, 101u8, 95u8, 99u8, 101u8, 108u8, 115u8, 105u8, 117u8, 115u8, 34u8, 58u8]
}

/// Appends the bytes of `{"topic":{"Climate":{"temperature_celsius":`.
fn push_lit_obj_open(v: &mut Vec<u8>)
    ensures
        final(v)@ == old(v)@ + spec_lit_obj_open(),
{
    v.push(123);
    v.push(34);
    v.push(116);
    v.push(111);
    v.push(112);
    v.push(105);
    v.push(99);
    v.push(34);
    v.push(58);
    v.push(123);
    v.push(34);
    v.push(67);
    v.push(108);
    v.push(105);
    v.push(109);
    v.push(97);
    v.push(116);
    v.push(101);
    v.push(34);
    v.push(58);
    v.push(123);
    v.push(34);
    v.push(116);
    v.push(101);
    v.push(109);
    v.push(112);
    v.push(101);
    v.push(114);
    v.push(97);
    v.push(116);
    v.push(117);
    v.push(114);
    v.push(101);
    v.push(95);
    v.push(99);
    v.push(101);
    v.push(108);
    v.push(115);
    v.push(105);
    v.push(117);
    v.push(115);
    v.push(34);
    v.push(58);
    proof {
        assert(v@ =~= old(v)@ + spec_lit_obj_open());
    }
}

/// The bytes of `,"humidity":`.
pub open spec fn spec_lit_humidity() -> Seq<u8> {
    seq![44u8, 34u8, 104u8, 117u8, 109u8, 105u8, 100u8, 105u8, 116u8, 121u8, 34u8, 58u8]
}

/// Appends the bytes of `,"humidity":`.
fn push_lit_humidity(v: &mut Vec<u8>)
    ensures
        final(v)@ == old(v)@ + spec_lit_humidity(),
{
    v.push(44);
    v.push(34);
    v.push(104);
    v.push(117);
    v.push(109);
    v.push(105);
    v.push(100);
    v.push(105);
    v.push(116);
    v.push(121);
    v.push(34);
    v.push(58);
    proof {
        assert(v@ =~= old(v)@ + spec_lit_humidity());
    }
}

/// The bytes of `,"co2_ppm":`.
pub open spec fn spec_lit_co2() -> Seq<u8> {
    seq![44u8, 34u8, 99u8, 111u8, 50u8, 95u8, 112u8, 112u8, 109u8, 34u8, 58u8]
}

/// Appends the bytes of `,"co2_ppm":`.
fn push_lit_co2(v: &mut Vec<u8>)
    ensures
        final(v)@ == old(v)@ + spec_lit_co2(),
{
    v.push(44);
    v.push(34);
    v.push(99);
    v.push(111);
    v.push(50);
    v.push(95);
    v.push(112);
    v.push(112);
    v.push(109);
    v.push(34);
    v.push(58);
    proof {
        assert(v@ =~= old(v)@ + spec_lit_co2());
    }
}

/// The bytes of `}},"timestamp":`.
pub open spec fn spec_lit_timestamp() -> Seq<u8> {
    seq![125u8, 125u8, 44u8, 34u8, 116u8, 105u8, 109u8, 101u8, 115u8, 116u8, 97u8, 109u8, 112u8, 34u8, 58u8]
}

/// Appends the bytes of `}},"timestamp":`.
fn push_lit_timestamp(v: &mut Vec<u8>)
    ensures
        final(v)@ == old(v)@ + spec_lit_timestamp(),
{
    v.push(125);
    v.push(125);
    v.push(44);
    v.push(34);
    v.push(116);
    v.push(105);
    v.push(109);
    v.push(101);
    v.push(115);
    v.push(116);
    v.push(97);
    v.push(109);
    v.push(112);
    v.push(34);
    v.push(58);
    proof {
        assert(v@ =~= old(v)@ + spec_lit_timestamp());
    }
}

/// The bytes of `,"device_id":`.
pub open spec fn spec_lit_device_id() -> Seq<u8> {
    seq![44u8, 34u8, 100u8, 101u8, 118u8, 105u8, 99u8, 101u8, 95u8, 105u8, 100u8, 34u8, 58u8]
}

/// Appends the bytes of `,"device_id":`.
fn push_lit_device_id(v: &mut Vec<u8>)
    ensures
        final(v)@ == old(v)@ + spec_lit_device_id(),
{
    v.push(44);
    v.push(34);
    v.push(100);
    v.push(101);
    v.push(118);
    v.push(105);
    v.push(99);
    v.push(101);
    v.push(95);
    v.push(105);
    v.push(100);
    v.push(34);
    v.push(58);
    proof {
        assert(v@ =~= old(v)@ + spec_lit_device_id());
    }
}

/// The bytes of `}`.
pub open spec fn spec_lit_obj_close() -> Seq<u8> {
    seq![125u8]
}

/// Appends the bytes of `}`.
fn push_lit_obj_close(v: &mut Vec<u8>)
    ensures
        final(v)@ == old(v)@ + spec_lit_obj_close(),
{
    v.push(125);
    proof {
        assert(v@ =~= old(v)@ + spec_lit_obj_close());
    }
}

/// The comma-separated decimal renderings of the identifier's bytes.
pub open spec fn spec_byte_list(id: Seq<u8>) -> Seq<u8>
    decreases id.len(),
{
    if id.len() == 0 {
        Seq::<u8>::empty()
    } else if id.len() == 1 {
        spec_dec_nat(id[0] as nat)
    } else {
        spec_byte_list(id.drop_last()) + seq![44u8] + spec_dec_nat(id.last() as nat)
    }
}

/// A JSON array of the identifier's bytes, `[1,2,3]`.
pub open spec fn spec_byte_array(id: Seq<u8>) -> Seq<u8> {
    seq![91u8] + spec_byte_list(id) + seq![93u8]
}

/// The whole body for one envelope.
pub open spec fn spec_envelope_json(e: MetricRequestBody) -> Seq<u8> {
    match e.topic {
        Topic::Climate(c) => spec_lit_obj_open() + spec_dec_centi(c.temperature_centi as int)
            + spec_lit_humidity() + spec_dec_centi(c.humidity_centi as int) + spec_lit_co2()
            + spec_dec_int(c.co2_ppm as int) + spec_lit_timestamp() + spec_dec_int(
            e.timestamp as int,
        ) + spec_lit_device_id() + spec_byte_array(e.device_id@) + spec_lit_obj_close(),
    }
}

/// Appends the JSON array of the identifier's bytes.
fn push_byte_array(v: &mut Vec<u8>, id: &Vec<u8>)
    ensures
        final(v)@ == old(v)@ + spec_byte_array(id@),
{
    v.push(91);
    let mut i: usize = 0;
    while i < id.len()
        invariant
            i <= id@.len(),
            v@ == old(v)@ + seq![91u8] + spec_byte_list(id@.take(i as int)),
        decreases id@.len() - i,
    {
        if i > 0 {
            v.push(44);
        }
        let mut digits = fmt_u64(id[i] as u64);
        v.append(&mut digits);
        proof {
            assert(id@.take(i + 1).drop_last() =~= id@.take(i as int));
            assert(id@.take(i + 1).last() == id@[i as int]);
            if i == 0 {
                assert(spec_byte_list(id@.take(1)) == spec_dec_nat(id@[0] as nat));
                assert(v@ =~= old(v)@ + seq![91u8] + spec_byte_list(id@.take(1)));
            } else {
                assert(spec_byte_list(id@.take(i + 1)) == spec_byte_list(id@.take(i as int))
                    + seq![44u8] + spec_dec_nat(id@[i as int] as nat));
                assert(v@ =~= old(v)@ + seq![91u8] + spec_byte_list(id@.take(i + 1)));
            }
        }
        i = i + 1;
    }
    v.push(93);
    proof {
        assert(id@.take(id@.len() as int) =~= id@);
        assert(v@ =~= old(v)@ + spec_byte_array(id@));
    }
}

/// Renders one envelope as the collector's JSON body.
pub fn encode_envelope(e: &MetricRequestBody) -> (r: Vec<u8>)
    ensures
        r@ == spec_envelope_json(*e),
{
    let mut v: Vec<u8> = Vec::new();
    match &e.topic {
        Topic::Climate(c) => {
            push_lit_obj_open(&mut v);
            let mut t = fmt_centi(c.temperature_centi);
            v.append(&mut t);
            push_lit_humidity(&mut v);
            let mut h = fmt_centi(c.humidity_centi);
            v.append(&mut h);
            push_lit_co2(&mut v);
            let mut co2 = fmt_i32(c.co2_ppm);
            v.append(&mut co2);
            push_lit_timestamp(&mut v);
            let mut ts = fmt_i64(e.timestamp);
            v.append(&mut ts);
            push_lit_device_id(&mut v);
            push_byte_array(&mut v, &e.device_id);
            push_lit_obj_close(&mut v);
            proof {
                assert(v@ =~= spec_envelope_json(*e));
            }
        },
    }
    v
}

} // verus!
