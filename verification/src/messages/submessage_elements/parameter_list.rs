use vstd::prelude::*;
use crate::messages::codec_error::CodecError;
use crate::messages::endianness::Endianness;
use crate::messages::submessage_elements::parameter::PID_PAD;
use crate::messages::submessage_elements::parameter::PID_SENTINEL;
use crate::messages::submessage_elements::parameter::Parameter;
use crate::messages::submessage_elements::parameter::ParameterModel;
use crate::messages::submessage_elements::parameter::spec_parse_parameter;

verus! {

/// ParameterList is used as part of several messages to encapsulate QoS
/// parameters that may affect the interpretation of the message. The
/// encapsulation follows a mechanism that allows extensions to the QoS
/// without breaking backwards compatibility.
#[derive(Clone, Debug, PartialEq, Eq)]
pub struct ParameterList {
    pub parameters: Vec<Parameter>,
}

impl View for ParameterList {
    type V = Seq<ParameterModel>;

    open spec fn view(&self) -> Seq<ParameterModel> {
        self.parameters@.map_values(|p: Parameter| p@)
    }
}

/// What parsing a parameter list at the head of `s` yields: the entries
/// before the terminating sentinel, with pad entries skipped, and the
/// total bytes consumed, sentinel included.
pub open spec fn spec_parse_parameter_list(s: Seq<u8>, e: Endianness) -> Result<
    (Seq<ParameterModel>, int),
    CodecError,
>
    decreases s.len(),
{
    match spec_parse_parameter(s, e) {
        Err(err) => Err(err),
        Ok((p, n)) => {
            if p.id == PID_SENTINEL {
                Ok((Seq::empty(), n))
            } else {
                match spec_parse_parameter_list(s.skip(n), e) {
                    Err(err) => Err(err),
                    Ok((rest, m)) => {
                        if p.id == PID_PAD {
                            Ok((rest, n + m))
                        } else {
                            Ok((seq![p] + rest, n + m))
                        }
                    },
                }
            }
        },
    }
}

/// The wire form written for the entries `ps`: each entry up to and
/// including an explicit sentinel, with a sentinel appended if `ps` holds
/// none.
pub open spec fn spec_parameter_list_bytes(ps: Seq<ParameterModel>, e: Endianness) -> Seq<u8>
    decreases ps.len(),
{
    if ps.len() == 0 {
        (ParameterModel { id: PID_SENTINEL, value: Seq::empty() }).spec_bytes(e)
    } else if ps[0].id == PID_SENTINEL {
        ps[0].spec_bytes(e)
    } else {
        ps[0].spec_bytes(e) + spec_parameter_list_bytes(ps.drop_first(), e)
    }
}

impl ParameterList {
    /// Read the parameter list whose wire form starts at `pos`: entries
    /// until the sentinel, pad entries skipped.
    pub fn read_from(buf: &[u8], pos: usize, e: Endianness) -> (r: Result<
        (ParameterList, usize),
        CodecError,
    >)
        requires
            pos <= buf@.len(),
        ensures
            match (r, spec_parse_parameter_list(buf@.skip(pos as int), e)) {
                (Ok((pl, q)), Ok((ps, n))) => pl@ == ps && q == pos + n && pos <= q <= buf@.len(),
                (Err(e1), Err(e2)) => e1 == e2,
                _ => false,
            },
    {
        let mut parameters: Vec<Parameter> = Vec::new();
        let mut cur = pos;
        proof {
            assert(parameters@.map_values(|p: Parameter| p@) =~= Seq::<ParameterModel>::empty());
        }
        loop
            invariant
                pos <= cur <= buf@.len(),
                ({
                    let whole = spec_parse_parameter_list(buf@.skip(pos as int), e);
                    let acc = parameters@.map_values(|p: Parameter| p@);
                    match spec_parse_parameter_list(buf@.skip(cur as int), e) {
                        Ok((ps, n)) => whole == Ok::<(Seq<ParameterModel>, int), CodecError>(
                            (acc + ps, (cur - pos) + n),
                        ),
                        Err(err) => whole == Err::<(Seq<ParameterModel>, int), CodecError>(err),
                    }
                }),
            decreases buf@.len() - cur,
        {
            let ghost cur0 = cur as int;
            let ghost acc0 = parameters@.map_values(|p: Parameter| p@);
            match Parameter::read_from(buf, cur, e) {
                Err(err) => {
                    return Err(err);
                },
                Ok((p, q)) => {
                    proof {
                        assert(buf@.skip(cur0).skip(q - cur0) =~= buf@.skip(q as int));
                    }
                    if p.is_sentinel() {
                        proof {
                            let acc = parameters@.map_values(|pp: Parameter| pp@);
                            assert(acc + Seq::<ParameterModel>::empty() =~= acc);
                        }
                        return Ok((ParameterList { parameters }, q));
                    } else if p.get_id() == PID_PAD {
                        cur = q;
                    } else {
                        parameters.push(p);
                        cur = q;
                        proof {
                            assert(parameters@.map_values(|pp: Parameter| pp@) =~= acc0.push(p@));
                            let rec = spec_parse_parameter_list(buf@.skip(q as int), e);
                            if rec is Ok {
                                let (ps, m) = rec->Ok_0;
                                assert(acc0 + (seq![p@] + ps) =~= acc0.push(p@) + ps);
                            }
                        }
                    }
                },
            }
        }
    }

    /// Append the wire form to `out`: each entry until an explicit
    /// sentinel stops the list early, then a sentinel if none was written.
    pub fn write_to(&self, out: &mut Vec<u8>, e: Endianness)
        requires
            forall|i: int| 0 <= i < self@.len() ==> (#[trigger] self@[i]).value.len() <= 0xffff,
        ensures
            final(out)@ == old(out)@ + spec_parameter_list_bytes(self@, e),
    {
        let ghost out0 = out@;
        let mut j: usize = 0;
        proof {
            assert(self@.skip(0) =~= self@);
        }
        while j < self.parameters.len()
            invariant
                out0 == old(out)@,
                j <= self.parameters.len(),
                self@.len() == self.parameters.len(),
                forall|i: int| 0 <= i < self@.len() ==> (#[trigger] self@[i]).value.len() <= 0xffff,
                out0 + spec_parameter_list_bytes(self@, e) == out@ + spec_parameter_list_bytes(
                    self@.skip(j as int),
                    e,
                ),
            decreases self.parameters.len() - j,
        {
            let p = &self.parameters[j];
            proof {
                assert(p@ == self@[j as int]);
            }
            p.write_to(out, e);
            if p.is_sentinel() {
                proof {
                    assert(spec_parameter_list_bytes(self@.skip(j as int), e) == self@[j as int].spec_bytes(
                        e,
                    ));
                    assert(out@ =~= out0 + spec_parameter_list_bytes(self@, e));
                }
                return ;
            }
            j = j + 1;
            proof {
                assert(self@.skip(j as int - 1).drop_first() =~= self@.skip(j as int));
                assert(out0 + spec_parameter_list_bytes(self@, e) =~= out@
                    + spec_parameter_list_bytes(self@.skip(j as int), e));
            }
        }
        let sentinel = Parameter::new_sentinel();
        sentinel.write_to(out, e);
        proof {
            assert(self@.skip(self@.len() as int).len() == 0);
            assert(out@ =~= out0 + spec_parameter_list_bytes(self@, e));
        }
    }
}

} // verus!
