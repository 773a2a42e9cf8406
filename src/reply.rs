//! Reading the payload of a reply to the creation of a component.
use vstd::prelude::*;

use crate::error::ContractError;

verus! {

#[verifier::external_type_specification]
#[verifier::external_body]
pub struct ExParseReplyError(cw_utils::ParseReplyError);

/// The address that an instantiate-response payload (protobuf-encoded) names,
/// if the payload can be decoded.
pub uninterp spec fn instantiated_address(data: Seq<u8>) -> Option<Seq<char>>;

/// Relies on cw_utils::parse_instantiate_response_data, which decodes the
/// payload and gives the new contract's address; it reads the bytes alone.
#[verifier::external_body]
fn parse_instantiated_address(data: &Vec<u8>) -> (r: Result<String, cw_utils::ParseReplyError>)
    ensures
        r is Ok <==> instantiated_address(data@) is Some,
        r matches Ok(a) ==> instantiated_address(data@) == Some(a@),
{
    cw_utils::parse_instantiate_response_data(data.as_slice()).map(|res| res.contract_address)
}

/// The address of the component whose creation a reply confirms: refused with
/// `DataMissing` where the reply has no payload, `ParseError` where it cannot be read.
pub fn contract_address_of_reply(data: &Option<Vec<u8>>) -> (r: Result<String, ContractError>)
    ensures
        data is None <==> r == Err::<String, _>(ContractError::DataMissing),
        data matches Some(d) ==> match instantiated_address(d@) {
            Some(a) => r matches Ok(s) && s@ == a,
            None => r == Err::<String, _>(ContractError::ParseError),
        },
{
    match data {
        None => Err(ContractError::DataMissing),
        Some(d) => match parse_instantiated_address(d) {
            Ok(a) => Ok(a),
            Err(_) => Err(ContractError::ParseError),
        },
    }
}

} // verus!
