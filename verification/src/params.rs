//! A tuple of parameters with its field types, as it crosses the boundary.

use vstd::prelude::*;
use crate::abi::{
    conforms, decode, decoding, encode, encoding, matches_schema, views, FieldKind, Value,
    ValueView,
};
use crate::abi_laws::{lemma_decode_encode, lemma_encode_decode};
use crate::error::TurnError;

verus! {

/// The field types and the values of a tuple of parameters: a request is
/// read into one and a response is written from one.
#[derive(Debug, PartialEq, Eq)]
pub struct EthParams {
    pub schema: Vec<FieldKind>,
    pub values: Vec<Value>,
}

/// A tuple of parameters as a mathematical value.
pub struct ParamsView {
    pub schema: Seq<FieldKind>,
    pub values: Seq<ValueView>,
}

impl View for EthParams {
    type V = ParamsView;

    open spec fn view(&self) -> ParamsView {
        ParamsView { schema: self.schema@, values: views(self.values@) }
    }
}

impl EthParams {
    /// The values are those of a tuple of the field types.
    pub open spec fn wf(&self) -> bool {
        matches_schema(self@.values, self@.schema)
    }

    /// The parameters of the given field types with the given values, if
    /// the values are of those types.
    pub fn new(schema: Vec<FieldKind>, values: Vec<Value>) -> (r: Option<EthParams>)
        ensures
            r is Some <==> matches_schema(views(values@), schema@),
            r matches Some(params) ==> params@ == (ParamsView {
                schema: schema@,
                values: views(values@),
            }),
    {
        if conforms(values.as_slice(), schema.as_slice()) {
            Some(EthParams { schema, values })
        } else {
            None
        }
    }

    /// Reads the parameters of the given field types from a whole buffer.
    /// A buffer that is not the encoding of such a tuple is malformed.
    pub fn from_parameter(input: &[u8], schema: Vec<FieldKind>) -> (r: Result<
        EthParams,
        TurnError,
    >)
        ensures
            match r {
                Ok(params) => {
                    &&& params.wf()
                    &&& params@.schema == schema@
                    &&& decoding(input@, schema@) == Some(params@.values)
                    &&& encoding(params@.values) == input@
                },
                Err(e) => e == TurnError::MalformedInput && decoding(input@, schema@) is None,
            },
    {
        match decode(input, schema.as_slice()) {
            Some(values) => {
                proof {
                    lemma_encode_decode(input@, schema@);
                }
                Ok(EthParams { schema, values })
            },
            None => Err(TurnError::MalformedInput),
        }
    }

    /// Writes the parameters as one whole buffer, from which they can be
    /// read again.
    pub fn handle_response(&self) -> (out: Vec<u8>)
        ensures
            out@ == encoding(self@.values),
            self.wf() ==> decoding(out@, self@.schema) == Some(self@.values),
    {
        let out = encode(self.values.as_slice());
        proof {
            if self.wf() {
                assert(out@.len() == out.len());
                lemma_decode_encode(self@.values, self@.schema);
            }
        }
        out
    }
}

} // verus!
