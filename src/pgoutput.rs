//! Messages of the `pgoutput` stream and their decoder.
use crate::cursor::{
    agrees_view, get_cstr, get_i16, get_i32, get_i64, get_i8, get_text, get_u32, get_u64, get_u8,
    within,
};
use crate::error::DecodeError;
use crate::primitives::{bytes_as_slice, bytes_content, str_from_utf8, utf8_text};
use crate::wire::{
    decode, fail, lemma_columns_err, lemma_rel_ids_err, lemma_tuple_items_err, ok, read_begin,
    read_column, read_columns, read_commit, read_delete, read_insert, read_message,
    read_new_tuple, read_origin, read_rel_ids, read_relation, read_truncate, read_tuple,
    read_tuple_data, read_tuple_items, read_type, read_update, replica_identity_of, BeginModel,
    ColumnModel, CommitModel, DeleteModel, InsertModel, MessageModel, OriginModel, RelationModel,
    TruncateModel, TupleDataModel, TypeModel, UpdateModel,
};
pub use crate::wire::ReplicaIdentity;
use vstd::prelude::*;

verus! {

/// The text held by `b`, or `InvalidUtf8`.
pub open spec fn text_of(b: Seq<u8>) -> Result<Seq<char>, DecodeError> {
    match utf8_text(b) {
        Some(t) => Ok(t),
        None => Err(DecodeError::InvalidUtf8),
    }
}

/// Whether `r` is the text of `b`, as `text_of` describes it.
pub open spec fn is_text_of(r: Result<&str, DecodeError>, b: Seq<u8>) -> bool {
    match r {
        Ok(t) => text_of(b) == Ok::<Seq<char>, DecodeError>(t@),
        Err(e) => text_of(b) == Err::<Seq<char>, DecodeError>(e),
    }
}

/// Reads a field as UTF-8 text.
pub fn get_str(b: &[u8]) -> (r: Result<&str, DecodeError>)
    ensures
        is_text_of(r, b@),
{
    match str_from_utf8(b) {
        Ok(t) => Ok(t),
        Err(_) => Err(DecodeError::InvalidUtf8),
    }
}

/// One column value of a row.
pub enum TupleData {
    /// The value is null.
    Null,
    /// An unchanged out-of-line value; its data is not sent.
    Toast,
    /// The value in text form.
    Text(bytes::Bytes),
}

impl View for TupleData {
    type V = TupleDataModel;

    open spec fn view(&self) -> TupleDataModel {
        match self {
            TupleData::Null => TupleDataModel::Null,
            TupleData::Toast => TupleDataModel::Toast,
            TupleData::Text(b) => TupleDataModel::Text(bytes_content(*b)),
        }
    }
}

impl TupleData {
    pub(crate) fn parse_at(buf: &bytes::Bytes, s: &[u8], pos: usize) -> (r: Result<(Self, usize), DecodeError>)
        requires
            s@ == bytes_content(*buf),
            pos <= s@.len(),
        ensures
            agrees_view(r, read_tuple_data(s@, pos as int)),
            within(r, pos, s@.len() as int),
    {
        let (tag, q) = match get_u8(s, pos) {
            Ok(v) => v,
            Err(e) => return Err(e),
        };
        if tag == 0x6e {
            Ok((TupleData::Null, q))
        } else if tag == 0x75 {
            Ok((TupleData::Toast, q))
        } else if tag == 0x74 {
            match get_text(buf, s, q) {
                Ok((t, r)) => Ok((TupleData::Text(t), r)),
                Err(e) => Err(e),
            }
        } else {
            Err(DecodeError::UnknownTupleDataTag(tag))
        }
    }
}

/// A row: one value per column of its relation.
pub struct Tuple(Vec<TupleData>);

impl View for Tuple {
    type V = Seq<TupleDataModel>;

    closed spec fn view(&self) -> Seq<TupleDataModel> {
        self.0@.map_values(|d: TupleData| d@)
    }
}

impl Tuple {
    /// The values of the row, in column order.
    pub fn tuple_data(&self) -> (r: &[TupleData])
        ensures
            r@.map_values(|d: TupleData| d@) == self@,
    {
        self.0.as_slice()
    }

    pub(crate) fn parse_at(buf: &bytes::Bytes, s: &[u8], pos: usize) -> (r: Result<(Self, usize), DecodeError>)
        requires
            s@ == bytes_content(*buf),
            pos <= s@.len(),
        ensures
            agrees_view(r, read_tuple(s@, pos as int)),
            within(r, pos, s@.len() as int),
    {
        let (n, q) = match get_i16(s, pos) {
            Ok(v) => v,
            Err(e) => return Err(e),
        };
        let mut items: Vec<TupleData> = Vec::new();
        let mut p: usize = q;
        let mut i: i16 = 0;
        proof {
            assert(items@.map_values(|d: TupleData| d@) =~= Seq::<TupleDataModel>::empty());
        }
        while i < n
            invariant
                s@ == bytes_content(*buf),
                pos <= q <= p <= s@.len(),
                read_tuple(s@, pos as int) == read_tuple_items(s@, q as int, n as int),
                0 <= i,
                i == 0 || i <= n,
                read_tuple_items(s@, q as int, i as int) == ok(
                    items@.map_values(|d: TupleData| d@),
                    p as int,
                ),
            decreases n - i,
        {
            match TupleData::parse_at(buf, s, p) {
                Ok((d, r)) => {
                    proof {
                        assert(items@.push(d).map_values(|d: TupleData| d@) =~= items@.map_values(
                            |d: TupleData| d@,
                        ).push(d@));
                    }
                    items.push(d);
                    p = r;
                    i = i + 1;
                },
                Err(e) => {
                    proof {
                        assert(read_tuple_items(s@, q as int, i + 1) == fail::<Seq<TupleDataModel>>(e));
                        lemma_tuple_items_err(s@, q as int, i + 1, n as int);
                    }
                    return Err(e);
                },
            }
        }
        Ok((Tuple(items), p))
    }
}

/// One column description of a relation.
pub struct Column {
    flags: i8,
    name: bytes::Bytes,
    type_id: i32,
    type_modifier: i32,
}

impl View for Column {
    type V = ColumnModel;

    closed spec fn view(&self) -> ColumnModel {
        ColumnModel {
            flags: self.flags,
            name: bytes_content(self.name),
            type_id: self.type_id,
            type_modifier: self.type_modifier,
        }
    }
}

impl Column {
    /// The column's flags; bit 0 marks a column of the key.
    pub fn flags(&self) -> (r: i8)
        ensures
            r == self@.flags,
    {
        self.flags
    }

    /// The column's name as text.
    pub fn name(&self) -> (r: Result<&str, DecodeError>)
        ensures
            is_text_of(r, self@.name),
    {
        get_str(bytes_as_slice(&self.name))
    }

    /// The identifier of the column's data type.
    pub fn type_id(&self) -> (r: i32)
        ensures
            r == self@.type_id,
    {
        self.type_id
    }

    /// The type modifier of the column.
    pub fn type_modifier(&self) -> (r: i32)
        ensures
            r == self@.type_modifier,
    {
        self.type_modifier
    }

    pub(crate) fn parse_at(buf: &bytes::Bytes, s: &[u8], pos: usize) -> (r: Result<(Self, usize), DecodeError>)
        requires
            s@ == bytes_content(*buf),
            pos <= s@.len(),
        ensures
            agrees_view(r, read_column(s@, pos as int)),
            within(r, pos, s@.len() as int),
    {
        let (flags, q1) = match get_i8(s, pos) {
            Ok(v) => v,
            Err(e) => return Err(e),
        };
        let (name, q2) = match get_cstr(buf, s, q1) {
            Ok(v) => v,
            Err(e) => return Err(e),
        };
        let (type_id, q3) = match get_i32(s, q2) {
            Ok(v) => v,
            Err(e) => return Err(e),
        };
        let (type_modifier, q4) = match get_i32(s, q3) {
            Ok(v) => v,
            Err(e) => return Err(e),
        };
        let c = Column { flags, name, type_id, type_modifier };
        proof {
            assert(c@ == ColumnModel {
                flags,
                name: bytes_content(name),
                type_id,
                type_modifier,
            });
        }
        Ok((c, q4))
    }
}

/// Column descriptions one after another, `n` of them (none when `n` is not positive).
fn parse_columns(buf: &bytes::Bytes, s: &[u8], pos: usize, n: i16) -> (r: Result<(Vec<Column>, usize), DecodeError>)
    requires
        s@ == bytes_content(*buf),
        pos <= s@.len(),
    ensures
        match r {
            Ok((v, q)) => read_columns(s@, pos as int, n as int) == ok(
                v@.map_values(|c: Column| c@),
                q as int,
            ) && pos <= q <= s@.len(),
            Err(e) => read_columns(s@, pos as int, n as int) == fail::<Seq<ColumnModel>>(e),
        },
{
    let mut items: Vec<Column> = Vec::new();
    let mut p: usize = pos;
    let mut i: i16 = 0;
    proof {
        assert(items@.map_values(|c: Column| c@) =~= Seq::<ColumnModel>::empty());
    }
    while i < n
        invariant
            s@ == bytes_content(*buf),
            pos <= p <= s@.len(),
            0 <= i,
            i == 0 || i <= n,
            read_columns(s@, pos as int, i as int) == ok(items@.map_values(|c: Column| c@), p as int),
        decreases n - i,
    {
        match Column::parse_at(buf, s, p) {
            Ok((c, r)) => {
                proof {
                    assert(items@.push(c).map_values(|c: Column| c@) =~= items@.map_values(
                        |c: Column| c@,
                    ).push(c@));
                }
                items.push(c);
                p = r;
                i = i + 1;
            },
            Err(e) => {
                proof {
                    assert(read_columns(s@, pos as int, i + 1) == fail::<Seq<ColumnModel>>(e));
                    lemma_columns_err(s@, pos as int, i + 1, n as int);
                }
                return Err(e);
            },
        }
    }
    Ok((items, p))
}

/// Relation ids one after another, `n` of them (none when `n` is not positive).
fn parse_rel_ids(s: &[u8], pos: usize, n: i32) -> (r: Result<(Vec<u32>, usize), DecodeError>)
    requires
        pos <= s@.len(),
    ensures
        match r {
            Ok((v, q)) => read_rel_ids(s@, pos as int, n as int) == ok(v@, q as int) && pos <= q
                <= s@.len(),
            Err(e) => read_rel_ids(s@, pos as int, n as int) == fail::<Seq<u32>>(e),
        },
{
    let mut items: Vec<u32> = Vec::new();
    let mut p: usize = pos;
    let mut i: i32 = 0;
    while i < n
        invariant
            pos <= p <= s@.len(),
            0 <= i,
            i == 0 || i <= n,
            read_rel_ids(s@, pos as int, i as int) == ok(items@, p as int),
        decreases n - i,
    {
        match get_u32(s, p) {
            Ok((x, r)) => {
                items.push(x);
                p = r;
                i = i + 1;
            },
            Err(e) => {
                proof {
                    assert(read_rel_ids(s@, pos as int, i + 1) == fail::<Seq<u32>>(e));
                    lemma_rel_ids_err(s@, pos as int, i + 1, n as int);
                }
                return Err(e);
            },
        }
    }
    Ok((items, p))
}

/// A tuple marker that must be `N`, then the new row.
fn parse_new_tuple(buf: &bytes::Bytes, s: &[u8], pos: usize) -> (r: Result<(Tuple, usize), DecodeError>)
    requires
        s@ == bytes_content(*buf),
        pos <= s@.len(),
    ensures
        agrees_view(r, read_new_tuple(s@, pos as int)),
        within(r, pos, s@.len() as int),
{
    let (tag, q1) = match get_u8(s, pos) {
        Ok(v) => v,
        Err(e) => return Err(e),
    };
    if tag == 0x4e {
        Tuple::parse_at(buf, s, q1)
    } else {
        Err(DecodeError::UnexpectedTupleTag(tag))
    }
}

/// Start of a transaction.
pub struct BeginBody {
    final_lsn: u64,
    timestamp: i64,
    xid: i32,
}

impl View for BeginBody {
    type V = BeginModel;

    closed spec fn view(&self) -> BeginModel {
        BeginModel { final_lsn: self.final_lsn, timestamp: self.timestamp, xid: self.xid }
    }
}

impl BeginBody {
    /// The log position of the transaction's commit record.
    pub fn final_lsn(&self) -> (r: crate::Lsn)
        ensures
            r == self@.final_lsn,
    {
        self.final_lsn
    }

    /// The commit time of the transaction.
    pub fn timestamp(&self) -> (r: i64)
        ensures
            r == self@.timestamp,
    {
        self.timestamp
    }

    /// The transaction id.
    pub fn xid(&self) -> (r: i32)
        ensures
            r == self@.xid,
    {
        self.xid
    }

    pub(crate) fn parse_at(s: &[u8], pos: usize) -> (r: Result<(Self, usize), DecodeError>)
        requires
            pos <= s@.len(),
        ensures
            agrees_view(r, read_begin(s@, pos as int)),
            within(r, pos, s@.len() as int),
    {
        let (final_lsn, q1) = match get_u64(s, pos) {
            Ok(v) => v,
            Err(e) => return Err(e),
        };
        let (timestamp, q2) = match get_i64(s, q1) {
            Ok(v) => v,
            Err(e) => return Err(e),
        };
        let (xid, q3) = match get_i32(s, q2) {
            Ok(v) => v,
            Err(e) => return Err(e),
        };
        let b = BeginBody { final_lsn, timestamp, xid };
        proof {
            assert(b@ == BeginModel { final_lsn, timestamp, xid });
        }
        Ok((b, q3))
    }
}

/// End of a transaction.
pub struct CommitBody {
    flags: i8,
    commit_lsn: u64,
    end_lsn: u64,
    timestamp: i64,
}

impl View for CommitBody {
    type V = CommitModel;

    closed spec fn view(&self) -> CommitModel {
        CommitModel {
            flags: self.flags,
            commit_lsn: self.commit_lsn,
            end_lsn: self.end_lsn,
            timestamp: self.timestamp,
        }
    }
}

impl CommitBody {
    /// The log position of the commit.
    pub fn commit_lsn(&self) -> (r: crate::Lsn)
        ensures
            r == self@.commit_lsn,
    {
        self.commit_lsn
    }

    /// The log position just past the transaction.
    pub fn end_lsn(&self) -> (r: crate::Lsn)
        ensures
            r == self@.end_lsn,
    {
        self.end_lsn
    }

    /// The commit time of the transaction.
    pub fn timestamp(&self) -> (r: i64)
        ensures
            r == self@.timestamp,
    {
        self.timestamp
    }

    /// Reserved flags.
    pub fn flags(&self) -> (r: i8)
        ensures
            r == self@.flags,
    {
        self.flags
    }

    pub(crate) fn parse_at(s: &[u8], pos: usize) -> (r: Result<(Self, usize), DecodeError>)
        requires
            pos <= s@.len(),
        ensures
            agrees_view(r, read_commit(s@, pos as int)),
            within(r, pos, s@.len() as int),
    {
        let (flags, q1) = match get_i8(s, pos) {
            Ok(v) => v,
            Err(e) => return Err(e),
        };
        let (commit_lsn, q2) = match get_u64(s, q1) {
            Ok(v) => v,
            Err(e) => return Err(e),
        };
        let (end_lsn, q3) = match get_u64(s, q2) {
            Ok(v) => v,
            Err(e) => return Err(e),
        };
        let (timestamp, q4) = match get_i64(s, q3) {
            Ok(v) => v,
            Err(e) => return Err(e),
        };
        let b = CommitBody { flags, commit_lsn, end_lsn, timestamp };
        proof {
            assert(b@ == CommitModel { flags, commit_lsn, end_lsn, timestamp });
        }
        Ok((b, q4))
    }
}

/// The origin of a transaction replayed from another node.
pub struct OriginBody {
    commit_lsn: u64,
    name: bytes::Bytes,
}

impl View for OriginBody {
    type V = OriginModel;

    closed spec fn view(&self) -> OriginModel {
        OriginModel { commit_lsn: self.commit_lsn, name: bytes_content(self.name) }
    }
}

impl OriginBody {
    /// The log position of the commit on the origin.
    pub fn commit_lsn(&self) -> (r: crate::Lsn)
        ensures
            r == self@.commit_lsn,
    {
        self.commit_lsn
    }

    /// The origin's name as text.
    pub fn name(&self) -> (r: Result<&str, DecodeError>)
        ensures
            is_text_of(r, self@.name),
    {
        get_str(bytes_as_slice(&self.name))
    }

    pub(crate) fn parse_at(buf: &bytes::Bytes, s: &[u8], pos: usize) -> (r: Result<(Self, usize), DecodeError>)
        requires
            s@ == bytes_content(*buf),
            pos <= s@.len(),
        ensures
            agrees_view(r, read_origin(s@, pos as int)),
            within(r, pos, s@.len() as int),
    {
        let (commit_lsn, q1) = match get_u64(s, pos) {
            Ok(v) => v,
            Err(e) => return Err(e),
        };
        let (name, q2) = match get_cstr(buf, s, q1) {
            Ok(v) => v,
            Err(e) => return Err(e),
        };
        let b = OriginBody { commit_lsn, name };
        proof {
            assert(b@ == OriginModel { commit_lsn, name: bytes_content(name) });
        }
        Ok((b, q2))
    }
}

/// The replica identity that a tag byte names, if any.
fn replica_identity_from(tag: u8) -> (r: Option<ReplicaIdentity>)
    ensures
        r == replica_identity_of(tag),
{
    if tag == 0x64 {
        Some(ReplicaIdentity::Default)
    } else if tag == 0x6e {
        Some(ReplicaIdentity::Nothing)
    } else if tag == 0x66 {
        Some(ReplicaIdentity::Full)
    } else if tag == 0x69 {
        Some(ReplicaIdentity::Index)
    } else {
        None
    }
}

/// The description of a table.
pub struct RelationBody {
    rel_id: u32,
    namespace: bytes::Bytes,
    name: bytes::Bytes,
    replica_identity: ReplicaIdentity,
    columns: Vec<Column>,
}

impl View for RelationBody {
    type V = RelationModel;

    closed spec fn view(&self) -> RelationModel {
        RelationModel {
            rel_id: self.rel_id,
            namespace: bytes_content(self.namespace),
            name: bytes_content(self.name),
            replica_identity: self.replica_identity,
            columns: self.columns@.map_values(|c: Column| c@),
        }
    }
}

impl RelationBody {
    /// The relation's id.
    pub fn rel_id(&self) -> (r: u32)
        ensures
            r == self@.rel_id,
    {
        self.rel_id
    }

    /// The relation's namespace as text.
    pub fn namespace(&self) -> (r: Result<&str, DecodeError>)
        ensures
            is_text_of(r, self@.namespace),
    {
        get_str(bytes_as_slice(&self.namespace))
    }

    /// The relation's name as text.
    pub fn name(&self) -> (r: Result<&str, DecodeError>)
        ensures
            is_text_of(r, self@.name),
    {
        get_str(bytes_as_slice(&self.name))
    }

    /// How the relation identifies old rows.
    pub fn replica_identity(&self) -> (r: &ReplicaIdentity)
        ensures
            *r == self@.replica_identity,
    {
        &self.replica_identity
    }

    /// The relation's columns, in order.
    pub fn columns(&self) -> (r: &[Column])
        ensures
            r@.map_values(|c: Column| c@) == self@.columns,
    {
        self.columns.as_slice()
    }

    pub(crate) fn parse_at(buf: &bytes::Bytes, s: &[u8], pos: usize) -> (r: Result<(Self, usize), DecodeError>)
        requires
            s@ == bytes_content(*buf),
            pos <= s@.len(),
        ensures
            agrees_view(r, read_relation(s@, pos as int)),
            within(r, pos, s@.len() as int),
    {
        let (rel_id, q1) = match get_u32(s, pos) {
            Ok(v) => v,
            Err(e) => return Err(e),
        };
        let (namespace, q2) = match get_cstr(buf, s, q1) {
            Ok(v) => v,
            Err(e) => return Err(e),
        };
        let (name, q3) = match get_cstr(buf, s, q2) {
            Ok(v) => v,
            Err(e) => return Err(e),
        };
        let (tag, q4) = match get_u8(s, q3) {
            Ok(v) => v,
            Err(e) => return Err(e),
        };
        let replica_identity = match replica_identity_from(tag) {
            Some(ri) => ri,
            None => return Err(DecodeError::UnknownReplicaIdentity(tag)),
        };
        let (n, q5) = match get_i16(s, q4) {
            Ok(v) => v,
            Err(e) => return Err(e),
        };
        let (columns, q6) = match parse_columns(buf, s, q5, n) {
            Ok(v) => v,
            Err(e) => return Err(e),
        };
        let b = RelationBody { rel_id, namespace, name, replica_identity, columns };
        proof {
            assert(b@ == RelationModel {
                rel_id,
                namespace: bytes_content(namespace),
                name: bytes_content(name),
                replica_identity,
                columns: columns@.map_values(|c: Column| c@),
            });
        }
        Ok((b, q6))
    }
}

/// The description of a data type.
pub struct TypeBody {
    id: u32,
    namespace: bytes::Bytes,
    name: bytes::Bytes,
}

impl View for TypeBody {
    type V = TypeModel;

    closed spec fn view(&self) -> TypeModel {
        TypeModel { id: self.id, namespace: bytes_content(self.namespace), name: bytes_content(self.name) }
    }
}

impl TypeBody {
    /// The type's identifier.
    pub fn id(&self) -> (r: crate::Oid)
        ensures
            r == self@.id,
    {
        self.id
    }

    /// The type's namespace as text.
    pub fn namespace(&self) -> (r: Result<&str, DecodeError>)
        ensures
            is_text_of(r, self@.namespace),
    {
        get_str(bytes_as_slice(&self.namespace))
    }

    /// The type's name as text.
    pub fn name(&self) -> (r: Result<&str, DecodeError>)
        ensures
            is_text_of(r, self@.name),
    {
        get_str(bytes_as_slice(&self.name))
    }

    pub(crate) fn parse_at(buf: &bytes::Bytes, s: &[u8], pos: usize) -> (r: Result<(Self, usize), DecodeError>)
        requires
            s@ == bytes_content(*buf),
            pos <= s@.len(),
        ensures
            agrees_view(r, read_type(s@, pos as int)),
            within(r, pos, s@.len() as int),
    {
        let (id, q1) = match get_u32(s, pos) {
            Ok(v) => v,
            Err(e) => return Err(e),
        };
        let (namespace, q2) = match get_cstr(buf, s, q1) {
            Ok(v) => v,
            Err(e) => return Err(e),
        };
        let (name, q3) = match get_cstr(buf, s, q2) {
            Ok(v) => v,
            Err(e) => return Err(e),
        };
        let b = TypeBody { id, namespace, name };
        proof {
            assert(b@ == TypeModel {
                id,
                namespace: bytes_content(namespace),
                name: bytes_content(name),
            });
        }
        Ok((b, q3))
    }
}

/// The view of an optional row.
pub open spec fn opt_tuple_view(o: Option<Tuple>) -> Option<Seq<TupleDataModel>> {
    match o {
        Some(t) => Some(t@),
        None => None,
    }
}

/// Whether `r` borrows the row that `o` holds, if any.
pub open spec fn borrows_opt_tuple(r: Option<&Tuple>, o: Option<Seq<TupleDataModel>>) -> bool {
    match r {
        Some(t) => o == Some(t@),
        None => o is None,
    }
}

/// A new row.
pub struct InsertBody {
    rel_id: u32,
    tuple: Tuple,
}

impl View for InsertBody {
    type V = InsertModel;

    closed spec fn view(&self) -> InsertModel {
        InsertModel { rel_id: self.rel_id, tuple: self.tuple@ }
    }
}

impl InsertBody {
    /// The id of the relation the row belongs to.
    pub fn rel_id(&self) -> (r: u32)
        ensures
            r == self@.rel_id,
    {
        self.rel_id
    }

    /// The new row.
    pub fn tuple(&self) -> (r: &Tuple)
        ensures
            r@ == self@.tuple,
    {
        &self.tuple
    }

    pub(crate) fn parse_at(buf: &bytes::Bytes, s: &[u8], pos: usize) -> (r: Result<(Self, usize), DecodeError>)
        requires
            s@ == bytes_content(*buf),
            pos <= s@.len(),
        ensures
            agrees_view(r, read_insert(s@, pos as int)),
            within(r, pos, s@.len() as int),
    {
        let (rel_id, q1) = match get_u32(s, pos) {
            Ok(v) => v,
            Err(e) => return Err(e),
        };
        let (tuple, q2) = match parse_new_tuple(buf, s, q1) {
            Ok(v) => v,
            Err(e) => return Err(e),
        };
        let b = InsertBody { rel_id, tuple };
        proof {
            assert(b@ == InsertModel { rel_id, tuple: tuple@ });
        }
        Ok((b, q2))
    }
}

/// A changed row, with the old row or its key when the relation logs them.
pub struct UpdateBody {
    rel_id: u32,
    old_tuple: Option<Tuple>,
    key_tuple: Option<Tuple>,
    new_tuple: Tuple,
}

impl View for UpdateBody {
    type V = UpdateModel;

    closed spec fn view(&self) -> UpdateModel {
        UpdateModel {
            rel_id: self.rel_id,
            key_tuple: opt_tuple_view(self.key_tuple),
            old_tuple: opt_tuple_view(self.old_tuple),
            new_tuple: self.new_tuple@,
        }
    }
}

impl UpdateBody {
    /// The id of the relation the row belongs to.
    pub fn rel_id(&self) -> (r: u32)
        ensures
            r == self@.rel_id,
    {
        self.rel_id
    }

    /// The key columns of the old row, when they were sent.
    pub fn key_tuple(&self) -> (r: Option<&Tuple>)
        ensures
            borrows_opt_tuple(r, self@.key_tuple),
    {
        match &self.key_tuple {
            Some(t) => Some(t),
            None => None,
        }
    }

    /// The whole old row, when it was sent.
    pub fn old_tuple(&self) -> (r: Option<&Tuple>)
        ensures
            borrows_opt_tuple(r, self@.old_tuple),
    {
        match &self.old_tuple {
            Some(t) => Some(t),
            None => None,
        }
    }

    /// The new row.
    pub fn new_tuple(&self) -> (r: &Tuple)
        ensures
            r@ == self@.new_tuple,
    {
        &self.new_tuple
    }

    pub(crate) fn parse_at(buf: &bytes::Bytes, s: &[u8], pos: usize) -> (r: Result<(Self, usize), DecodeError>)
        requires
            s@ == bytes_content(*buf),
            pos <= s@.len(),
        ensures
            agrees_view(r, read_update(s@, pos as int)),
            within(r, pos, s@.len() as int),
    {
        let (rel_id, q1) = match get_u32(s, pos) {
            Ok(v) => v,
            Err(e) => return Err(e),
        };
        let (tag, q2) = match get_u8(s, q1) {
            Ok(v) => v,
            Err(e) => return Err(e),
        };
        if tag == 0x4e {
            let (new_tuple, q3) = match Tuple::parse_at(buf, s, q2) {
                Ok(v) => v,
                Err(e) => return Err(e),
            };
            let b = UpdateBody { rel_id, old_tuple: None, key_tuple: None, new_tuple };
            proof {
                assert(b@ == UpdateModel { rel_id, key_tuple: None, old_tuple: None, new_tuple: new_tuple@ });
            }
            Ok((b, q3))
        } else if tag == 0x4f || tag == 0x4b {
            let (before, q3) = match Tuple::parse_at(buf, s, q2) {
                Ok(v) => v,
                Err(e) => return Err(e),
            };
            let ghost before_view = before@;
            let (new_tuple, q4) = match parse_new_tuple(buf, s, q3) {
                Ok(v) => v,
                Err(e) => return Err(e),
            };
            let b = if tag == 0x4b {
                UpdateBody { rel_id, old_tuple: None, key_tuple: Some(before), new_tuple }
            } else {
                UpdateBody { rel_id, old_tuple: Some(before), key_tuple: None, new_tuple }
            };
            proof {
                assert(b@ == UpdateModel {
                    rel_id,
                    key_tuple: if tag == 0x4b { Some(before_view) } else { None },
                    old_tuple: if tag == 0x4f { Some(before_view) } else { None },
                    new_tuple: new_tuple@,
                });
            }
            Ok((b, q4))
        } else {
            Err(DecodeError::UnexpectedTupleTag(tag))
        }
    }
}

/// A removed row, identified by its old row or by its key.
pub struct DeleteBody {
    rel_id: u32,
    old_tuple: Option<Tuple>,
    key_tuple: Option<Tuple>,
}

impl View for DeleteBody {
    type V = DeleteModel;

    closed spec fn view(&self) -> DeleteModel {
        DeleteModel {
            rel_id: self.rel_id,
            key_tuple: opt_tuple_view(self.key_tuple),
            old_tuple: opt_tuple_view(self.old_tuple),
        }
    }
}

impl DeleteBody {
    /// The id of the relation the row belonged to.
    pub fn rel_id(&self) -> (r: u32)
        ensures
            r == self@.rel_id,
    {
        self.rel_id
    }

    /// The key columns of the removed row, when the key was sent.
    pub fn key_tuple(&self) -> (r: Option<&Tuple>)
        ensures
            borrows_opt_tuple(r, self@.key_tuple),
    {
        match &self.key_tuple {
            Some(t) => Some(t),
            None => None,
        }
    }

    /// The whole removed row, when it was sent.
    pub fn old_tuple(&self) -> (r: Option<&Tuple>)
        ensures
            borrows_opt_tuple(r, self@.old_tuple),
    {
        match &self.old_tuple {
            Some(t) => Some(t),
            None => None,
        }
    }

    pub(crate) fn parse_at(buf: &bytes::Bytes, s: &[u8], pos: usize) -> (r: Result<(Self, usize), DecodeError>)
        requires
            s@ == bytes_content(*buf),
            pos <= s@.len(),
        ensures
            agrees_view(r, read_delete(s@, pos as int)),
            within(r, pos, s@.len() as int),
    {
        let (rel_id, q1) = match get_u32(s, pos) {
            Ok(v) => v,
            Err(e) => return Err(e),
        };
        let (tag, q2) = match get_u8(s, q1) {
            Ok(v) => v,
            Err(e) => return Err(e),
        };
        if tag == 0x4f || tag == 0x4b {
            let (t, q3) = match Tuple::parse_at(buf, s, q2) {
                Ok(v) => v,
                Err(e) => return Err(e),
            };
            let ghost t_view = t@;
            let b = if tag == 0x4b {
                DeleteBody { rel_id, old_tuple: None, key_tuple: Some(t) }
            } else {
                DeleteBody { rel_id, old_tuple: Some(t), key_tuple: None }
            };
            proof {
                assert(b@ == DeleteModel {
                    rel_id,
                    key_tuple: if tag == 0x4b { Some(t_view) } else { None },
                    old_tuple: if tag == 0x4f { Some(t_view) } else { None },
                });
            }
            Ok((b, q3))
        } else {
            Err(DecodeError::UnexpectedTupleTag(tag))
        }
    }
}

/// Relations emptied together.
pub struct TruncateBody {
    options: i8,
    rel_ids: Vec<u32>,
}

impl View for TruncateBody {
    type V = TruncateModel;

    closed spec fn view(&self) -> TruncateModel {
        TruncateModel { options: self.options, rel_ids: self.rel_ids@ }
    }
}

impl TruncateBody {
    /// The ids of the relations emptied.
    pub fn rel_ids(&self) -> (r: &[u32])
        ensures
            r@ == self@.rel_ids,
    {
        self.rel_ids.as_slice()
    }

    /// Option bits: 1 for cascade, 2 for restart identity.
    pub fn options(&self) -> (r: i8)
        ensures
            r == self@.options,
    {
        self.options
    }

    pub(crate) fn parse_at(s: &[u8], pos: usize) -> (r: Result<(Self, usize), DecodeError>)
        requires
            pos <= s@.len(),
        ensures
            agrees_view(r, read_truncate(s@, pos as int)),
            within(r, pos, s@.len() as int),
    {
        let (n, q1) = match get_i32(s, pos) {
            Ok(v) => v,
            Err(e) => return Err(e),
        };
        let (options, q2) = match get_i8(s, q1) {
            Ok(v) => v,
            Err(e) => return Err(e),
        };
        let (rel_ids, q3) = match parse_rel_ids(s, q2, n) {
            Ok(v) => v,
            Err(e) => return Err(e),
        };
        let b = TruncateBody { options, rel_ids };
        proof {
            assert(b@ == TruncateModel { options, rel_ids: rel_ids@ });
        }
        Ok((b, q3))
    }
}

/// One message of the stream.
#[non_exhaustive]
pub enum LogicalReplicationMessage {
    /// Start of a transaction.
    Begin(BeginBody),
    /// End of a transaction.
    Commit(CommitBody),
    /// Origin of a replayed transaction.
    Origin(OriginBody),
    /// Description of a table.
    Relation(RelationBody),
    /// Description of a data type.
    Type(TypeBody),
    /// A new row.
    Insert(InsertBody),
    /// A changed row.
    Update(UpdateBody),
    /// A removed row.
    Delete(DeleteBody),
    /// Emptied tables.
    Truncate(TruncateBody),
}

impl View for LogicalReplicationMessage {
    type V = MessageModel;

    open spec fn view(&self) -> MessageModel {
        match self {
            LogicalReplicationMessage::Begin(b) => MessageModel::Begin(b@),
            LogicalReplicationMessage::Commit(b) => MessageModel::Commit(b@),
            LogicalReplicationMessage::Origin(b) => MessageModel::Origin(b@),
            LogicalReplicationMessage::Relation(b) => MessageModel::Relation(b@),
            LogicalReplicationMessage::Type(b) => MessageModel::Type(b@),
            LogicalReplicationMessage::Insert(b) => MessageModel::Insert(b@),
            LogicalReplicationMessage::Update(b) => MessageModel::Update(b@),
            LogicalReplicationMessage::Delete(b) => MessageModel::Delete(b@),
            LogicalReplicationMessage::Truncate(b) => MessageModel::Truncate(b@),
        }
    }
}

impl LogicalReplicationMessage {
    /// Decodes the message at the start of `buf`; bytes after it are ignored.
    /// Text and value fields of the result share `buf`'s storage.
    pub fn parse(buf: &bytes::Bytes) -> (r: Result<Self, DecodeError>)
        ensures
            match r {
                Ok(m) => decode(bytes_content(*buf)) == Ok::<MessageModel, DecodeError>(m@),
                Err(e) => decode(bytes_content(*buf)) == Err::<MessageModel, DecodeError>(e),
            },
    {
        let s = bytes_as_slice(buf);
        match Self::parse_at(buf, s, 0) {
            Ok((m, _)) => Ok(m),
            Err(e) => Err(e),
        }
    }

    pub(crate) fn parse_at(buf: &bytes::Bytes, s: &[u8], pos: usize) -> (r: Result<(Self, usize), DecodeError>)
        requires
            s@ == bytes_content(*buf),
            pos <= s@.len(),
        ensures
            agrees_view(r, read_message(s@, pos as int)),
            within(r, pos, s@.len() as int),
    {
        let (tag, q) = match get_u8(s, pos) {
            Ok(v) => v,
            Err(e) => return Err(e),
        };
        if tag == 0x42 {
            match BeginBody::parse_at(s, q) {
                Ok((b, r)) => Ok((LogicalReplicationMessage::Begin(b), r)),
                Err(e) => Err(e),
            }
        } else if tag == 0x43 {
            match CommitBody::parse_at(s, q) {
                Ok((b, r)) => Ok((LogicalReplicationMessage::Commit(b), r)),
                Err(e) => Err(e),
            }
        } else if tag == 0x4f {
            match OriginBody::parse_at(buf, s, q) {
                Ok((b, r)) => Ok((LogicalReplicationMessage::Origin(b), r)),
                Err(e) => Err(e),
            }
        } else if tag == 0x52 {
            match RelationBody::parse_at(buf, s, q) {
                Ok((b, r)) => Ok((LogicalReplicationMessage::Relation(b), r)),
                Err(e) => Err(e),
            }
        } else if tag == 0x59 {
            match TypeBody::parse_at(buf, s, q) {
                Ok((b, r)) => Ok((LogicalReplicationMessage::Type(b), r)),
                Err(e) => Err(e),
            }
        } else if tag == 0x49 {
            match InsertBody::parse_at(buf, s, q) {
                Ok((b, r)) => Ok((LogicalReplicationMessage::Insert(b), r)),
                Err(e) => Err(e),
            }
        } else if tag == 0x55 {
            match UpdateBody::parse_at(buf, s, q) {
                Ok((b, r)) => Ok((LogicalReplicationMessage::Update(b), r)),
                Err(e) => Err(e),
            }
        } else if tag == 0x44 {
            match DeleteBody::parse_at(buf, s, q) {
                Ok((b, r)) => Ok((LogicalReplicationMessage::Delete(b), r)),
                Err(e) => Err(e),
            }
        } else if tag == 0x54 {
            match TruncateBody::parse_at(s, q) {
                Ok((b, r)) => Ok((LogicalReplicationMessage::Truncate(b), r)),
                Err(e) => Err(e),
            }
        } else {
            Err(DecodeError::UnknownMessageTag(tag))
        }
    }
}

} // verus!
