//! The wire format as spec functions: each reader takes the payload and a
//! position and gives the value read with the position after it, or an error.
use crate::error::DecodeError;
use crate::primitives::{be_uint, signed_of};
use vstd::prelude::*;

verus! {

/// Outcome of reading one field: the value and the position after it.
pub type Parsed<T> = Result<(T, int), DecodeError>;

/// How a relation identifies the old row of an update or delete.
#[derive(Clone, Copy, Debug, PartialEq, Eq, Structural)]
pub enum ReplicaIdentity {
    /// default selection for replica identity (primary key or nothing)
    Default,
    /// no replica identity is logged for this relation
    Nothing,
    /// all columns are logged as replica identity
    Full,
    /// An explicitly chosen candidate key's columns are used as replica identity.
    /// Note this will still be set if the index has been dropped; in that case it
    /// has the same meaning as 'd'.
    Index,
}

/// One column value of a row.
pub ghost enum TupleDataModel {
    Null,
    Toast,
    Text(Seq<u8>),
}

/// One column description of a relation.
pub ghost struct ColumnModel {
    pub flags: i8,
    pub name: Seq<u8>,
    pub type_id: i32,
    pub type_modifier: i32,
}

pub ghost struct BeginModel {
    pub final_lsn: u64,
    pub timestamp: i64,
    pub xid: i32,
}

pub ghost struct CommitModel {
    pub flags: i8,
    pub commit_lsn: u64,
    pub end_lsn: u64,
    pub timestamp: i64,
}

pub ghost struct OriginModel {
    pub commit_lsn: u64,
    pub name: Seq<u8>,
}

pub ghost struct RelationModel {
    pub rel_id: u32,
    pub namespace: Seq<u8>,
    pub name: Seq<u8>,
    pub replica_identity: ReplicaIdentity,
    pub columns: Seq<ColumnModel>,
}

pub ghost struct TypeModel {
    pub id: u32,
    pub namespace: Seq<u8>,
    pub name: Seq<u8>,
}

pub ghost struct InsertModel {
    pub rel_id: u32,
    pub tuple: Seq<TupleDataModel>,
}

pub ghost struct UpdateModel {
    pub rel_id: u32,
    pub key_tuple: Option<Seq<TupleDataModel>>,
    pub old_tuple: Option<Seq<TupleDataModel>>,
    pub new_tuple: Seq<TupleDataModel>,
}

pub ghost struct DeleteModel {
    pub rel_id: u32,
    pub key_tuple: Option<Seq<TupleDataModel>>,
    pub old_tuple: Option<Seq<TupleDataModel>>,
}

pub ghost struct TruncateModel {
    pub options: i8,
    pub rel_ids: Seq<u32>,
}

/// A decoded message, with each text field as the raw bytes it was read from.
pub ghost enum MessageModel {
    Begin(BeginModel),
    Commit(CommitModel),
    Origin(OriginModel),
    Relation(RelationModel),
    Type(TypeModel),
    Insert(InsertModel),
    Update(UpdateModel),
    Delete(DeleteModel),
    Truncate(TruncateModel),
}

pub open spec fn ok<T>(v: T, q: int) -> Parsed<T> {
    Ok((v, q))
}

pub open spec fn fail<T>(e: DecodeError) -> Parsed<T> {
    Err(e)
}

/// The `n` bytes at `p`.
pub open spec fn read_bytes(s: Seq<u8>, p: int, n: int) -> Parsed<Seq<u8>> {
    if 0 <= p && p + n <= s.len() {
        ok(s.subrange(p, p + n), p + n)
    } else {
        fail(DecodeError::UnexpectedEnd)
    }
}

pub open spec fn read_u8(s: Seq<u8>, p: int) -> Parsed<u8> {
    match read_bytes(s, p, 1) {
        Ok((b, q)) => ok(b[0], q),
        Err(e) => fail(e),
    }
}

pub open spec fn read_i8(s: Seq<u8>, p: int) -> Parsed<i8> {
    match read_bytes(s, p, 1) {
        Ok((b, q)) => ok(signed_of(b[0] as int, 0x80) as i8, q),
        Err(e) => fail(e),
    }
}

pub open spec fn read_i16(s: Seq<u8>, p: int) -> Parsed<i16> {
    match read_bytes(s, p, 2) {
        Ok((b, q)) => ok(signed_of(be_uint(b) as int, 0x8000) as i16, q),
        Err(e) => fail(e),
    }
}

pub open spec fn read_u32(s: Seq<u8>, p: int) -> Parsed<u32> {
    match read_bytes(s, p, 4) {
        Ok((b, q)) => ok(be_uint(b) as u32, q),
        Err(e) => fail(e),
    }
}

pub open spec fn read_i32(s: Seq<u8>, p: int) -> Parsed<i32> {
    match read_bytes(s, p, 4) {
        Ok((b, q)) => ok(signed_of(be_uint(b) as int, 0x8000_0000) as i32, q),
        Err(e) => fail(e),
    }
}

pub open spec fn read_u64(s: Seq<u8>, p: int) -> Parsed<u64> {
    match read_bytes(s, p, 8) {
        Ok((b, q)) => ok(be_uint(b) as u64, q),
        Err(e) => fail(e),
    }
}

pub open spec fn read_i64(s: Seq<u8>, p: int) -> Parsed<i64> {
    match read_bytes(s, p, 8) {
        Ok((b, q)) => ok(signed_of(be_uint(b) as int, 0x8000_0000_0000_0000) as i64, q),
        Err(e) => fail(e),
    }
}

/// The first zero byte at or after `p`.
pub open spec fn find_zero(s: Seq<u8>, p: int) -> Option<int>
    decreases s.len() - p,
{
    if p < 0 || p >= s.len() {
        None
    } else if s[p] == 0 {
        Some(p)
    } else {
        find_zero(s, p + 1)
    }
}

pub proof fn lemma_find_zero_at(s: Seq<u8>, p: int, z: int)
    requires
        0 <= p <= z < s.len(),
        s[z] == 0,
        forall|i: int| p <= i < z ==> s[i] != 0,
    ensures
        find_zero(s, p) == Some(z),
    decreases z - p,
{
    if p < z {
        lemma_find_zero_at(s, p + 1, z);
    }
}

pub proof fn lemma_find_zero_none(s: Seq<u8>, p: int)
    requires
        0 <= p,
        forall|i: int| p <= i < s.len() ==> s[i] != 0,
    ensures
        find_zero(s, p) is None,
    decreases s.len() - p,
{
    if p < s.len() {
        lemma_find_zero_none(s, p + 1);
    }
}

/// A zero-terminated field: the bytes up to and including the terminator.
pub open spec fn read_cstr(s: Seq<u8>, p: int) -> Parsed<Seq<u8>> {
    match find_zero(s, p) {
        Some(z) => ok(s.subrange(p, z + 1), z + 1),
        None => fail(DecodeError::UnexpectedEnd),
    }
}

/// A length-prefixed field; a negative length is refused.
pub open spec fn read_text(s: Seq<u8>, p: int) -> Parsed<Seq<u8>> {
    match read_i32(s, p) {
        Ok((n, q)) => if n < 0 {
            fail(DecodeError::NegativeLength(n))
        } else {
            read_bytes(s, q, n as int)
        },
        Err(e) => fail(e),
    }
}

pub open spec fn read_tuple_data(s: Seq<u8>, p: int) -> Parsed<TupleDataModel> {
    match read_u8(s, p) {
        Ok((tag, q)) => if tag == 0x6e {
            ok(TupleDataModel::Null, q)
        } else if tag == 0x75 {
            ok(TupleDataModel::Toast, q)
        } else if tag == 0x74 {
            match read_text(s, q) {
                Ok((t, r)) => ok(TupleDataModel::Text(t), r),
                Err(e) => fail(e),
            }
        } else {
            fail(DecodeError::UnknownTupleDataTag(tag))
        },
        Err(e) => fail(e),
    }
}

/// `n` column values one after another; none when `n` is not positive.
pub open spec fn read_tuple_items(s: Seq<u8>, p: int, n: int) -> Parsed<Seq<TupleDataModel>>
    decreases n,
{
    if n <= 0 {
        ok(Seq::empty(), p)
    } else {
        match read_tuple_items(s, p, n - 1) {
            Ok((xs, q)) => match read_tuple_data(s, q) {
                Ok((x, r)) => ok(xs.push(x), r),
                Err(e) => fail(e),
            },
            Err(e) => fail(e),
        }
    }
}

/// A row: an `i16` count, then that many column values.
pub open spec fn read_tuple(s: Seq<u8>, p: int) -> Parsed<Seq<TupleDataModel>> {
    match read_i16(s, p) {
        Ok((n, q)) => read_tuple_items(s, q, n as int),
        Err(e) => fail(e),
    }
}

pub open spec fn read_column(s: Seq<u8>, p: int) -> Parsed<ColumnModel> {
    match read_i8(s, p) {
        Ok((flags, q1)) => match read_cstr(s, q1) {
            Ok((name, q2)) => match read_i32(s, q2) {
                Ok((type_id, q3)) => match read_i32(s, q3) {
                    Ok((type_modifier, q4)) => ok(
                        ColumnModel { flags, name, type_id, type_modifier },
                        q4,
                    ),
                    Err(e) => fail(e),
                },
                Err(e) => fail(e),
            },
            Err(e) => fail(e),
        },
        Err(e) => fail(e),
    }
}

pub open spec fn read_columns(s: Seq<u8>, p: int, n: int) -> Parsed<Seq<ColumnModel>>
    decreases n,
{
    if n <= 0 {
        ok(Seq::empty(), p)
    } else {
        match read_columns(s, p, n - 1) {
            Ok((xs, q)) => match read_column(s, q) {
                Ok((x, r)) => ok(xs.push(x), r),
                Err(e) => fail(e),
            },
            Err(e) => fail(e),
        }
    }
}

pub open spec fn read_rel_ids(s: Seq<u8>, p: int, n: int) -> Parsed<Seq<u32>>
    decreases n,
{
    if n <= 0 {
        ok(Seq::empty(), p)
    } else {
        match read_rel_ids(s, p, n - 1) {
            Ok((xs, q)) => match read_u32(s, q) {
                Ok((x, r)) => ok(xs.push(x), r),
                Err(e) => fail(e),
            },
            Err(e) => fail(e),
        }
    }
}

/// Once a repetition fails, reading more items fails the same way.
pub proof fn lemma_tuple_items_err(s: Seq<u8>, p: int, m: int, n: int)
    requires
        0 < m <= n,
        read_tuple_items(s, p, m) is Err,
    ensures
        read_tuple_items(s, p, n) == read_tuple_items(s, p, m),
    decreases n - m,
{
    if m < n {
        lemma_tuple_items_err(s, p, m, n - 1);
    }
}

/// Once a repetition fails, reading more items fails the same way.
pub proof fn lemma_columns_err(s: Seq<u8>, p: int, m: int, n: int)
    requires
        0 < m <= n,
        read_columns(s, p, m) is Err,
    ensures
        read_columns(s, p, n) == read_columns(s, p, m),
    decreases n - m,
{
    if m < n {
        lemma_columns_err(s, p, m, n - 1);
    }
}

/// Once a repetition fails, reading more items fails the same way.
pub proof fn lemma_rel_ids_err(s: Seq<u8>, p: int, m: int, n: int)
    requires
        0 < m <= n,
        read_rel_ids(s, p, m) is Err,
    ensures
        read_rel_ids(s, p, n) == read_rel_ids(s, p, m),
    decreases n - m,
{
    if m < n {
        lemma_rel_ids_err(s, p, m, n - 1);
    }
}

pub open spec fn replica_identity_of(tag: u8) -> Option<ReplicaIdentity> {
    if tag == 0x64 {
        Some(ReplicaIdentity::Default)
    } else if tag == 0x6e {
        Some(ReplicaIdentity::Nothing)
    } else if tag == 0x66 {
        Some(ReplicaIdentity::Full)
    } else if tag == 0x69 {
        Some(ReplicaIdentity::Index)
    } else {
        None
    }
}

pub open spec fn read_begin(s: Seq<u8>, p: int) -> Parsed<BeginModel> {
    match read_u64(s, p) {
        Ok((final_lsn, q1)) => match read_i64(s, q1) {
            Ok((timestamp, q2)) => match read_i32(s, q2) {
                Ok((xid, q3)) => ok(BeginModel { final_lsn, timestamp, xid }, q3),
                Err(e) => fail(e),
            },
            Err(e) => fail(e),
        },
        Err(e) => fail(e),
    }
}

pub open spec fn read_commit(s: Seq<u8>, p: int) -> Parsed<CommitModel> {
    match read_i8(s, p) {
        Ok((flags, q1)) => match read_u64(s, q1) {
            Ok((commit_lsn, q2)) => match read_u64(s, q2) {
                Ok((end_lsn, q3)) => match read_i64(s, q3) {
                    Ok((timestamp, q4)) => ok(
                        CommitModel { flags, commit_lsn, end_lsn, timestamp },
                        q4,
                    ),
                    Err(e) => fail(e),
                },
                Err(e) => fail(e),
            },
            Err(e) => fail(e),
        },
        Err(e) => fail(e),
    }
}

pub open spec fn read_origin(s: Seq<u8>, p: int) -> Parsed<OriginModel> {
    match read_u64(s, p) {
        Ok((commit_lsn, q1)) => match read_cstr(s, q1) {
            Ok((name, q2)) => ok(OriginModel { commit_lsn, name }, q2),
            Err(e) => fail(e),
        },
        Err(e) => fail(e),
    }
}

/// The part of a relation after its three leading fields: replica identity
/// and columns.
pub open spec fn read_relation_rest(
    s: Seq<u8>,
    p: int,
    rel_id: u32,
    namespace: Seq<u8>,
    name: Seq<u8>,
) -> Parsed<RelationModel> {
    match read_u8(s, p) {
        Ok((tag, q1)) => match replica_identity_of(tag) {
            Some(replica_identity) => match read_i16(s, q1) {
                Ok((n, q2)) => match read_columns(s, q2, n as int) {
                    Ok((columns, q3)) => ok(
                        RelationModel { rel_id, namespace, name, replica_identity, columns },
                        q3,
                    ),
                    Err(e) => fail(e),
                },
                Err(e) => fail(e),
            },
            None => fail(DecodeError::UnknownReplicaIdentity(tag)),
        },
        Err(e) => fail(e),
    }
}

pub open spec fn read_relation(s: Seq<u8>, p: int) -> Parsed<RelationModel> {
    match read_u32(s, p) {
        Ok((rel_id, q1)) => match read_cstr(s, q1) {
            Ok((namespace, q2)) => match read_cstr(s, q2) {
                Ok((name, q3)) => read_relation_rest(s, q3, rel_id, namespace, name),
                Err(e) => fail(e),
            },
            Err(e) => fail(e),
        },
        Err(e) => fail(e),
    }
}

pub open spec fn read_type(s: Seq<u8>, p: int) -> Parsed<TypeModel> {
    match read_u32(s, p) {
        Ok((id, q1)) => match read_cstr(s, q1) {
            Ok((namespace, q2)) => match read_cstr(s, q2) {
                Ok((name, q3)) => ok(TypeModel { id, namespace, name }, q3),
                Err(e) => fail(e),
            },
            Err(e) => fail(e),
        },
        Err(e) => fail(e),
    }
}

/// A tuple marker that must be `N`, then the new row.
pub open spec fn read_new_tuple(s: Seq<u8>, p: int) -> Parsed<Seq<TupleDataModel>> {
    match read_u8(s, p) {
        Ok((tag, q1)) => if tag == 0x4e {
            read_tuple(s, q1)
        } else {
            fail(DecodeError::UnexpectedTupleTag(tag))
        },
        Err(e) => fail(e),
    }
}

pub open spec fn read_insert(s: Seq<u8>, p: int) -> Parsed<InsertModel> {
    match read_u32(s, p) {
        Ok((rel_id, q1)) => match read_new_tuple(s, q1) {
            Ok((tuple, q2)) => ok(InsertModel { rel_id, tuple }, q2),
            Err(e) => fail(e),
        },
        Err(e) => fail(e),
    }
}

/// The part of an update after its relation id.
pub open spec fn read_update_rest(s: Seq<u8>, p: int, rel_id: u32) -> Parsed<UpdateModel> {
    match read_u8(s, p) {
        Ok((tag, q1)) => if tag == 0x4e {
            match read_tuple(s, q1) {
                Ok((new_tuple, q2)) => ok(
                    UpdateModel { rel_id, key_tuple: None, old_tuple: None, new_tuple },
                    q2,
                ),
                Err(e) => fail(e),
            }
        } else if tag == 0x4f || tag == 0x4b {
            match read_tuple(s, q1) {
                Ok((before, q2)) => match read_new_tuple(s, q2) {
                    Ok((new_tuple, q3)) => ok(
                        UpdateModel {
                            rel_id,
                            key_tuple: if tag == 0x4b { Some(before) } else { None },
                            old_tuple: if tag == 0x4f { Some(before) } else { None },
                            new_tuple,
                        },
                        q3,
                    ),
                    Err(e) => fail(e),
                },
                Err(e) => fail(e),
            }
        } else {
            fail(DecodeError::UnexpectedTupleTag(tag))
        },
        Err(e) => fail(e),
    }
}

pub open spec fn read_update(s: Seq<u8>, p: int) -> Parsed<UpdateModel> {
    match read_u32(s, p) {
        Ok((rel_id, q1)) => read_update_rest(s, q1, rel_id),
        Err(e) => fail(e),
    }
}

pub open spec fn read_delete(s: Seq<u8>, p: int) -> Parsed<DeleteModel> {
    match read_u32(s, p) {
        Ok((rel_id, q1)) => match read_u8(s, q1) {
            Ok((tag, q2)) => if tag == 0x4f || tag == 0x4b {
                match read_tuple(s, q2) {
                    Ok((t, q3)) => ok(
                        DeleteModel {
                            rel_id,
                            key_tuple: if tag == 0x4b { Some(t) } else { None },
                            old_tuple: if tag == 0x4f { Some(t) } else { None },
                        },
                        q3,
                    ),
                    Err(e) => fail(e),
                }
            } else {
                fail(DecodeError::UnexpectedTupleTag(tag))
            },
            Err(e) => fail(e),
        },
        Err(e) => fail(e),
    }
}

pub open spec fn read_truncate(s: Seq<u8>, p: int) -> Parsed<TruncateModel> {
    match read_i32(s, p) {
        Ok((n, q1)) => match read_i8(s, q1) {
            Ok((options, q2)) => match read_rel_ids(s, q2, n as int) {
                Ok((rel_ids, q3)) => ok(TruncateModel { options, rel_ids }, q3),
                Err(e) => fail(e),
            },
            Err(e) => fail(e),
        },
        Err(e) => fail(e),
    }
}

/// Whether `tag` starts one of the message kinds.
pub open spec fn is_message_tag(tag: u8) -> bool {
    tag == 0x42 || tag == 0x43 || tag == 0x4f || tag == 0x52 || tag == 0x59 || tag == 0x49
        || tag == 0x55 || tag == 0x44 || tag == 0x54
}

/// A body read, taken into the message kind that `f` builds.
pub open spec fn wrap<T>(r: Parsed<T>, f: spec_fn(T) -> MessageModel) -> Parsed<MessageModel> {
    match r {
        Ok((b, q)) => ok(f(b), q),
        Err(e) => fail(e),
    }
}

/// A whole message at `p`: its tag, then the body that the tag names.
pub open spec fn read_message(s: Seq<u8>, p: int) -> Parsed<MessageModel> {
    match read_u8(s, p) {
        Ok((tag, q)) => if tag == 0x42 {
            wrap(read_begin(s, q), |b| MessageModel::Begin(b))
        } else if tag == 0x43 {
            wrap(read_commit(s, q), |b| MessageModel::Commit(b))
        } else if tag == 0x4f {
            wrap(read_origin(s, q), |b| MessageModel::Origin(b))
        } else if tag == 0x52 {
            wrap(read_relation(s, q), |b| MessageModel::Relation(b))
        } else if tag == 0x59 {
            wrap(read_type(s, q), |b| MessageModel::Type(b))
        } else if tag == 0x49 {
            wrap(read_insert(s, q), |b| MessageModel::Insert(b))
        } else if tag == 0x55 {
            wrap(read_update(s, q), |b| MessageModel::Update(b))
        } else if tag == 0x44 {
            wrap(read_delete(s, q), |b| MessageModel::Delete(b))
        } else if tag == 0x54 {
            wrap(read_truncate(s, q), |b| MessageModel::Truncate(b))
        } else {
            fail(DecodeError::UnknownMessageTag(tag))
        },
        Err(e) => fail(e),
    }
}

/// What decoding a whole payload gives; bytes after the message are ignored.
pub open spec fn decode(s: Seq<u8>) -> Result<MessageModel, DecodeError> {
    match read_message(s, 0) {
        Ok((m, _)) => Ok(m),
        Err(e) => Err(e),
    }
}

} // verus!
