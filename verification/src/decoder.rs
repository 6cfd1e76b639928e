//! Row Decoder: converts one raw row payload into typed values against
//! the owning table's descriptor.

use vstd::prelude::*;

use crate::errors::ReplicationError;
use crate::ident::be_value;
use crate::ident::identifier_from_bytes;
use crate::schema::ColumnRole;
use crate::schema::ColumnSpec;
use crate::schema::RawRow;
use crate::schema::TableDescriptor;

verus! {

/// One decoded column value: a recognized 128-bit identifier, or the
/// raw payload kept opaque (the forward-compatible default for columns
/// with no recognized decode rule).
#[derive(Clone, Debug, PartialEq, Eq)]
pub enum DecodedValue {
    Identifier(u128),
    Raw(Vec<u8>),
}

/// A decoded column value at the level of the model: the raw payload is
/// seen as its byte sequence.
#[verifier::ext_equal]
pub enum DecodedValueModel {
    Identifier(u128),
    Raw(Seq<u8>),
}

impl View for DecodedValue {
    type V = DecodedValueModel;

    open spec fn view(&self) -> DecodedValueModel {
        match self {
            DecodedValue::Identifier(id) => DecodedValueModel::Identifier(*id),
            DecodedValue::Raw(payload) => DecodedValueModel::Raw(payload@),
        }
    }
}

/// One decoded row: a value per column of the owning descriptor, in
/// column order. Constructed fresh per row and never mutated after.
#[derive(Clone, Debug, PartialEq, Eq)]
pub struct DecodedRecord {
    pub fields: Vec<DecodedValue>,
}

/// A field list, seen at the level of the model.
pub open spec fn fields_view(s: Seq<DecodedValue>) -> Seq<DecodedValueModel> {
    s.map_values(|v: DecodedValue| v@)
}

/// What decoding column `i` of a row yields. A row shorter than the
/// schema and a present-but-NULL payload are distinct states of the raw
/// row; the schema here marks no column nullable, so both are refused as
/// a missing value. An identifier column must carry exactly 16 bytes.
pub open spec fn decode_column(
    values: Seq<Option<Vec<u8>>>,
    cols: Seq<ColumnSpec>,
    i: int,
) -> Result<DecodedValueModel, ReplicationError> {
    if i >= values.len() {
        Err(ReplicationError::MissingColumnValue { ordinal: i as usize })
    } else {
        match values[i] {
            Option::None => Err(ReplicationError::MissingColumnValue { ordinal: i as usize }),
            Option::Some(payload) => match cols[i].role {
                ColumnRole::Identifier => if payload@.len() == 16 {
                    Ok(DecodedValueModel::Identifier(be_value(payload@) as u128))
                } else {
                    Err(
                        ReplicationError::MalformedIdentifier {
                            ordinal: i as usize,
                            length: payload@.len() as usize,
                        },
                    )
                },
                _ => Ok(DecodedValueModel::Raw(payload@)),
            },
        }
    }
}

/// The decoded values of the first `n` columns, or the error of the
/// first column (in ordinal order) that fails to decode.
pub open spec fn decode_prefix(
    values: Seq<Option<Vec<u8>>>,
    cols: Seq<ColumnSpec>,
    n: int,
) -> Result<Seq<DecodedValueModel>, ReplicationError>
    decreases n,
{
    if n <= 0 {
        Ok(Seq::empty())
    } else {
        match decode_prefix(values, cols, n - 1) {
            Err(e) => Err(e),
            Ok(prefix) => match decode_column(values, cols, n - 1) {
                Err(e) => Err(e),
                Ok(v) => Ok(prefix.push(v)),
            },
        }
    }
}

/// What decoding a whole raw row against a column list yields: a value
/// per column, or the first failing column's error.
pub open spec fn decode_spec(values: Seq<Option<Vec<u8>>>, cols: Seq<ColumnSpec>) -> Result<
    Seq<DecodedValueModel>,
    ReplicationError,
> {
    decode_prefix(values, cols, cols.len() as int)
}

/// A decode result, seen at the level of the model.
pub open spec fn record_result_view(r: Result<DecodedRecord, ReplicationError>) -> Result<
    Seq<DecodedValueModel>,
    ReplicationError,
> {
    match r {
        Ok(rec) => Ok(fields_view(rec.fields@)),
        Err(e) => Err(e),
    }
}

/// Once a column has failed, every longer prefix fails the same way.
proof fn lemma_prefix_error_persists(
    values: Seq<Option<Vec<u8>>>,
    cols: Seq<ColumnSpec>,
    m: int,
    n: int,
)
    requires
        0 <= m <= n,
        decode_prefix(values, cols, m) is Err,
    ensures
        decode_prefix(values, cols, n) == decode_prefix(values, cols, m),
    decreases n - m,
{
    if n > m {
        lemma_prefix_error_persists(values, cols, m, n - 1);
    }
}

/// Decoding is deterministic: identical row and descriptor inputs yield
/// the identical record or the identical error.
pub proof fn lemma_decode_deterministic(
    values1: Seq<Option<Vec<u8>>>,
    cols1: Seq<ColumnSpec>,
    values2: Seq<Option<Vec<u8>>>,
    cols2: Seq<ColumnSpec>,
)
    requires
        values1 == values2,
        cols1 == cols2,
    ensures
        decode_spec(values1, cols1) == decode_spec(values2, cols2),
{
}

/// Copies a raw payload byte for byte.
fn clone_payload(payload: &Vec<u8>) -> (r: Vec<u8>)
    ensures
        r@ == payload@,
{
    let mut r: Vec<u8> = Vec::new();
    let mut i: usize = 0;
    while i < payload.len()
        invariant
            i <= payload@.len(),
            r@ =~= payload@.take(i as int),
        decreases payload@.len() - i,
    {
        r.push(payload[i]);
        proof {
            assert(r@ =~= payload@.take(i + 1));
        }
        i = i + 1;
    }
    proof {
        assert(r@ =~= payload@);
    }
    r
}

/// Decodes one raw row against a table descriptor: iterates the
/// descriptor's columns in order and converts each raw payload according
/// to the column's role. Pure: two calls on equal inputs return equal
/// results, and no input is rejected up front.
pub fn decode(row: &RawRow, descriptor: &TableDescriptor) -> (r: Result<
    DecodedRecord,
    ReplicationError,
>)
    ensures
        record_result_view(r) == decode_spec(row.values@, descriptor.columns@),
        r matches Ok(rec) ==> rec.fields@.len() == descriptor.columns@.len(),
{
    let ghost values = row.values@;
    let ghost cols = descriptor.columns@;
    let mut fields: Vec<DecodedValue> = Vec::new();
    let mut i: usize = 0;
    proof {
        assert(fields_view(fields@) =~= Seq::<DecodedValueModel>::empty());
    }
    while i < descriptor.columns.len()
        invariant
            row.values@ == values,
            descriptor.columns@ == cols,
            i <= cols.len(),
            fields@.len() == i,
            decode_prefix(values, cols, i as int) == Ok::<
                Seq<DecodedValueModel>,
                ReplicationError,
            >(fields_view(fields@)),
        decreases cols.len() - i,
    {
        let ghost fields_before = fields@;
        if i >= row.values.len() {
            let e = ReplicationError::MissingColumnValue { ordinal: i };
            proof {
                assert(decode_prefix(values, cols, i + 1) == Err::<
                    Seq<DecodedValueModel>,
                    ReplicationError,
                >(e));
                lemma_prefix_error_persists(values, cols, i + 1, cols.len() as int);
            }
            return Err(e);
        }
        let entry = &row.values[i];
        match entry {
            Option::None => {
                let e = ReplicationError::MissingColumnValue { ordinal: i };
                proof {
                    assert(decode_prefix(values, cols, i + 1) == Err::<
                        Seq<DecodedValueModel>,
                        ReplicationError,
                    >(e));
                    lemma_prefix_error_persists(values, cols, i + 1, cols.len() as int);
                }
                return Err(e);
            },
            Option::Some(payload) => {
                match descriptor.columns[i].role {
                    ColumnRole::Identifier => {
                        match identifier_from_bytes(payload) {
                            Option::Some(id) => {
                                fields.push(DecodedValue::Identifier(id));
                            },
                            Option::None => {
                                let e = ReplicationError::MalformedIdentifier {
                                    ordinal: i,
                                    length: payload.len(),
                                };
                                proof {
                                    assert(decode_prefix(values, cols, i + 1) == Err::<
                                        Seq<DecodedValueModel>,
                                        ReplicationError,
                                    >(e));
                                    lemma_prefix_error_persists(
                                        values,
                                        cols,
                                        i + 1,
                                        cols.len() as int,
                                    );
                                }
                                return Err(e);
                            },
                        }
                    },
                    _ => {
                        let copied = clone_payload(payload);
                        fields.push(DecodedValue::Raw(copied));
                    },
                }
            },
        }
        proof {
            assert(fields@.last()@ == decode_column(values, cols, i as int)->Ok_0);
            assert(fields_view(fields@) =~= fields_view(fields_before).push(fields@.last()@));
        }
        i = i + 1;
    }
    proof {
        assert(decode_spec(values, cols) == decode_prefix(values, cols, cols.len() as int));
    }
    Ok(DecodedRecord { fields })
}

} // verus!
