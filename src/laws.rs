//! Properties of the wire format that hold of every payload.
use crate::error::DecodeError;
use crate::primitives::be_uint;
use crate::wire::{
    decode, fail, find_zero, is_message_tag, ok, read_begin, read_bytes, read_column,
    read_columns, read_commit, read_cstr, read_delete, read_i16, read_i32, read_i64, read_i8,
    read_insert, read_message, read_new_tuple, read_origin, read_rel_ids, read_relation,
    read_relation_rest, read_text, read_truncate, read_tuple, read_tuple_data, read_tuple_items,
    read_type, read_u32, read_u64, read_u8, read_update, read_update_rest, replica_identity_of,
    MessageModel, Parsed, RelationModel, TupleDataModel,
};
use vstd::prelude::*;

verus! {

/// A read that succeeds on `s` at `p` and ends at `q` gives the same on the
/// first `k` bytes of `s` when `q <= k`, and runs out of bytes when `q > k`;
/// `len` is the length of `s`.
pub open spec fn prefix_stable<T>(full: Parsed<T>, cut: Parsed<T>, p: int, k: int, len: int) -> bool {
    match full {
        Ok((v, q)) => p <= q <= len && if q <= k {
            cut == ok(v, q)
        } else {
            cut == fail::<T>(DecodeError::UnexpectedEnd)
        },
        Err(_) => true,
    }
}

/// A payload whose first byte is not a message tag is refused, naming that byte.
pub proof fn lemma_unknown_message_tag(s: Seq<u8>)
    requires
        s.len() > 0,
        !is_message_tag(s[0]),
    ensures
        decode(s) == Err::<MessageModel, DecodeError>(DecodeError::UnknownMessageTag(s[0])),
{
    assert(read_bytes(s, 0, 1) == ok(s.subrange(0, 1), 1));
    assert(s.subrange(0, 1)[0] == s[0]);
}

/// An update whose first row is marked old (`O`) or key (`K`) must mark the
/// next row new (`N`); any other marker there is refused, naming it.
pub proof fn lemma_update_second_marker(s: Seq<u8>)
    requires
        s.len() > 5,
        s[0] == 0x55,
        s[5] == 0x4f || s[5] == 0x4b,
        match read_tuple(s, 6) {
            Ok((_, q)) => 0 <= q < s.len() && s[q] != 0x4e,
            Err(_) => false,
        },
    ensures
        match read_tuple(s, 6) {
            Ok((_, q)) => decode(s) == Err::<MessageModel, DecodeError>(
                DecodeError::UnexpectedTupleTag(s[q]),
            ),
            Err(_) => false,
        },
{
    assert(s.subrange(0, 1)[0] == s[0]);
    assert(s.subrange(5, 6)[0] == s[5]);
    if let Ok((_, q)) = read_tuple(s, 6) {
        assert(s.subrange(q, q + 1)[0] == s[q]);
    }
}

/// An update whose first marker is new (`N`) carries neither an old row nor a key.
pub proof fn lemma_update_new_only(s: Seq<u8>)
    requires
        s.len() > 5,
        s[0] == 0x55,
        s[5] == 0x4e,
        decode(s) is Ok,
    ensures
        match decode(s) {
            Ok(MessageModel::Update(u)) => u.old_tuple is None && u.key_tuple is None,
            _ => false,
        },
{
    assert(s.subrange(0, 1)[0] == s[0]);
    assert(s.subrange(5, 6)[0] == s[5]);
}

/// A decoded delete carries exactly one of the old row and the key.
pub proof fn lemma_delete_one_image(s: Seq<u8>)
    requires
        decode(s) matches Ok(MessageModel::Delete(_)),
    ensures
        match decode(s) {
            Ok(MessageModel::Delete(d)) => (d.old_tuple is Some) != (d.key_tuple is Some),
            _ => false,
        },
{
}

/// A null column value (`n`) and an unchanged one (`u`) are the tag byte alone.
pub proof fn lemma_tag_only_values(s: Seq<u8>, p: int)
    requires
        0 <= p < s.len(),
    ensures
        s[p] == 0x6e ==> read_tuple_data(s, p) == ok(TupleDataModel::Null, p + 1),
        s[p] == 0x75 ==> read_tuple_data(s, p) == ok(TupleDataModel::Toast, p + 1),
{
    assert(s.subrange(p, p + 1)[0] == s[p]);
}

/// A text column value (`t`) is its length-prefixed bytes; a negative length
/// is refused before any bytes are taken.
pub proof fn lemma_text_value(s: Seq<u8>, p: int)
    requires
        0 <= p < s.len(),
        s[p] == 0x74,
    ensures
        match read_i32(s, p + 1) {
            Ok((n, q)) => if n < 0 {
                read_tuple_data(s, p) == fail::<TupleDataModel>(DecodeError::NegativeLength(n))
            } else if q + n <= s.len() {
                read_tuple_data(s, p) == ok(TupleDataModel::Text(s.subrange(q, q + n)), q + n)
            } else {
                read_tuple_data(s, p) == fail::<TupleDataModel>(DecodeError::UnexpectedEnd)
            },
            Err(e) => read_tuple_data(s, p) == fail::<TupleDataModel>(e),
        },
{
    assert(s.subrange(p, p + 1)[0] == s[p]);
}

/// A relation that declares no columns is complete after its count: no column
/// record has to follow.
pub proof fn lemma_relation_without_columns(
    s: Seq<u8>,
    p: int,
    rel_id: u32,
    namespace: Seq<u8>,
    name: Seq<u8>,
)
    requires
        0 <= p,
        p + 3 <= s.len(),
        replica_identity_of(s[p]) is Some,
        s[p + 1] == 0,
        s[p + 2] == 0,
    ensures
        read_relation_rest(s, p, rel_id, namespace, name) == ok(
            RelationModel {
                rel_id,
                namespace,
                name,
                replica_identity: replica_identity_of(s[p])->0,
                columns: Seq::empty(),
            },
            p + 3,
        ),
{
    assert(s.subrange(p, p + 1)[0] == s[p]);
    let b = s.subrange(p + 1, p + 3);
    assert(b.drop_last() =~= seq![0u8]);
    assert(b.drop_last().drop_last() =~= Seq::<u8>::empty());
    assert(be_uint(b.drop_last().drop_last()) == 0);
    assert(b.drop_last().last() == 0);
    assert(be_uint(b.drop_last()) == be_uint(b.drop_last().drop_last()) * 256 + b.drop_last().last() as nat);
    assert(be_uint(b.drop_last()) == 0);
    assert(b.last() == 0);
    assert(be_uint(b) == 0);
    assert(read_i16(s, p + 1) == ok(0i16, p + 3));
}

proof fn lemma_bytes_cut(s: Seq<u8>, p: int, n: int, k: int)
    requires
        0 <= p <= k <= s.len(),
        0 <= n,
    ensures
        prefix_stable(read_bytes(s, p, n), read_bytes(s.take(k), p, n), p, k, s.len() as int),
{
    if p + n <= k {
        assert(s.take(k).subrange(p, p + n) =~= s.subrange(p, p + n));
    }
}

proof fn lemma_fixed_cut(s: Seq<u8>, p: int, k: int)
    requires
        0 <= p <= k <= s.len(),
    ensures
        prefix_stable(read_u8(s, p), read_u8(s.take(k), p), p, k, s.len() as int),
        prefix_stable(read_i8(s, p), read_i8(s.take(k), p), p, k, s.len() as int),
        prefix_stable(read_i16(s, p), read_i16(s.take(k), p), p, k, s.len() as int),
        prefix_stable(read_u32(s, p), read_u32(s.take(k), p), p, k, s.len() as int),
        prefix_stable(read_i32(s, p), read_i32(s.take(k), p), p, k, s.len() as int),
        prefix_stable(read_u64(s, p), read_u64(s.take(k), p), p, k, s.len() as int),
        prefix_stable(read_i64(s, p), read_i64(s.take(k), p), p, k, s.len() as int),
{
    lemma_bytes_cut(s, p, 1, k);
    lemma_bytes_cut(s, p, 2, k);
    lemma_bytes_cut(s, p, 4, k);
    lemma_bytes_cut(s, p, 8, k);
}

proof fn lemma_find_zero_cut(s: Seq<u8>, p: int, k: int)
    requires
        0 <= p <= k <= s.len(),
    ensures
        match find_zero(s, p) {
            Some(z) => p <= z < s.len() && if z < k {
                find_zero(s.take(k), p) == Some(z)
            } else {
                find_zero(s.take(k), p) is None
            },
            None => true,
        },
    decreases s.len() - p,
{
    if p < s.len() && s[p] != 0 {
        if p + 1 <= k {
            lemma_find_zero_cut(s, p + 1, k);
        } else {
            assert(find_zero(s.take(k), p) is None);
            lemma_find_zero_at_least(s, p + 1);
        }
    }
}

proof fn lemma_find_zero_at_least(s: Seq<u8>, p: int)
    ensures
        match find_zero(s, p) {
            Some(z) => p <= z < s.len(),
            None => true,
        },
    decreases s.len() - p,
{
    if 0 <= p < s.len() && s[p] != 0 {
        lemma_find_zero_at_least(s, p + 1);
    }
}

proof fn lemma_cstr_cut(s: Seq<u8>, p: int, k: int)
    requires
        0 <= p <= k <= s.len(),
    ensures
        prefix_stable(read_cstr(s, p), read_cstr(s.take(k), p), p, k, s.len() as int),
{
    lemma_find_zero_cut(s, p, k);
    if let Some(z) = find_zero(s, p) {
        if z < k {
            assert(s.take(k).subrange(p, z + 1) =~= s.subrange(p, z + 1));
        }
    }
}

proof fn lemma_text_cut(s: Seq<u8>, p: int, k: int)
    requires
        0 <= p <= k <= s.len(),
    ensures
        prefix_stable(read_text(s, p), read_text(s.take(k), p), p, k, s.len() as int),
{
    lemma_fixed_cut(s, p, k);
    if let Ok((n, q)) = read_i32(s, p) {
        if q <= k && n >= 0 {
            lemma_bytes_cut(s, q, n as int, k);
        }
    }
}

proof fn lemma_tuple_data_cut(s: Seq<u8>, p: int, k: int)
    requires
        0 <= p <= k <= s.len(),
    ensures
        prefix_stable(read_tuple_data(s, p), read_tuple_data(s.take(k), p), p, k, s.len() as int),
{
    lemma_fixed_cut(s, p, k);
    if let Ok((_, q)) = read_u8(s, p) {
        let kk = if q <= k { k } else { s.len() as int };
        lemma_text_cut(s, q, kk);
    }
}

proof fn lemma_tuple_items_cut(s: Seq<u8>, p: int, n: int, k: int)
    requires
        0 <= p <= k <= s.len(),
    ensures
        prefix_stable(read_tuple_items(s, p, n), read_tuple_items(s.take(k), p, n), p, k, s.len() as int),
    decreases n,
{
    if n > 0 {
        lemma_tuple_items_cut(s, p, n - 1, k);
        if let Ok((_, q)) = read_tuple_items(s, p, n - 1) {
            let kk = if q <= k { k } else { s.len() as int };
            lemma_tuple_data_cut(s, q, kk);
        }
    }
}

proof fn lemma_tuple_cut(s: Seq<u8>, p: int, k: int)
    requires
        0 <= p <= k <= s.len(),
    ensures
        prefix_stable(read_tuple(s, p), read_tuple(s.take(k), p), p, k, s.len() as int),
{
    lemma_fixed_cut(s, p, k);
    if let Ok((n, q)) = read_i16(s, p) {
        let kk = if q <= k { k } else { s.len() as int };
        lemma_tuple_items_cut(s, q, n as int, kk);
    }
}

proof fn lemma_new_tuple_cut(s: Seq<u8>, p: int, k: int)
    requires
        0 <= p <= k <= s.len(),
    ensures
        prefix_stable(read_new_tuple(s, p), read_new_tuple(s.take(k), p), p, k, s.len() as int),
{
    lemma_fixed_cut(s, p, k);
    if let Ok((_, q)) = read_u8(s, p) {
        let kk = if q <= k { k } else { s.len() as int };
        lemma_tuple_cut(s, q, kk);
    }
}

proof fn lemma_column_cut(s: Seq<u8>, p: int, k: int)
    requires
        0 <= p <= k <= s.len(),
    ensures
        prefix_stable(read_column(s, p), read_column(s.take(k), p), p, k, s.len() as int),
{
    lemma_fixed_cut(s, p, k);
    if let Ok((_, q1)) = read_i8(s, p) {
        let k1 = if q1 <= k { k } else { s.len() as int };
        lemma_cstr_cut(s, q1, k1);
        if let Ok((_, q2)) = read_cstr(s, q1) {
            let k2 = if q2 <= k { k } else { s.len() as int };
            lemma_fixed_cut(s, q2, k2);
            if let Ok((_, q3)) = read_i32(s, q2) {
                let k3 = if q3 <= k { k } else { s.len() as int };
                lemma_fixed_cut(s, q3, k3);
            }
        }
    }
}

proof fn lemma_columns_cut(s: Seq<u8>, p: int, n: int, k: int)
    requires
        0 <= p <= k <= s.len(),
    ensures
        prefix_stable(read_columns(s, p, n), read_columns(s.take(k), p, n), p, k, s.len() as int),
    decreases n,
{
    if n > 0 {
        lemma_columns_cut(s, p, n - 1, k);
        if let Ok((_, q)) = read_columns(s, p, n - 1) {
            let kk = if q <= k { k } else { s.len() as int };
            lemma_column_cut(s, q, kk);
        }
    }
}

proof fn lemma_rel_ids_cut(s: Seq<u8>, p: int, n: int, k: int)
    requires
        0 <= p <= k <= s.len(),
    ensures
        prefix_stable(read_rel_ids(s, p, n), read_rel_ids(s.take(k), p, n), p, k, s.len() as int),
    decreases n,
{
    if n > 0 {
        lemma_rel_ids_cut(s, p, n - 1, k);
        if let Ok((_, q)) = read_rel_ids(s, p, n - 1) {
            let kk = if q <= k { k } else { s.len() as int };
            lemma_fixed_cut(s, q, kk);
        }
    }
}

proof fn lemma_begin_cut(s: Seq<u8>, p: int, k: int)
    requires
        0 <= p <= k <= s.len(),
    ensures
        prefix_stable(read_begin(s, p), read_begin(s.take(k), p), p, k, s.len() as int),
{
    lemma_fixed_cut(s, p, k);
    if let Ok((_, q1)) = read_u64(s, p) {
        lemma_fixed_cut(s, q1, if q1 <= k { k } else { s.len() as int });
        if let Ok((_, q2)) = read_i64(s, q1) {
            lemma_fixed_cut(s, q2, if q2 <= k { k } else { s.len() as int });
        }
    }
}

proof fn lemma_commit_cut(s: Seq<u8>, p: int, k: int)
    requires
        0 <= p <= k <= s.len(),
    ensures
        prefix_stable(read_commit(s, p), read_commit(s.take(k), p), p, k, s.len() as int),
{
    lemma_fixed_cut(s, p, k);
    if let Ok((_, q1)) = read_i8(s, p) {
        lemma_fixed_cut(s, q1, if q1 <= k { k } else { s.len() as int });
        if let Ok((_, q2)) = read_u64(s, q1) {
            lemma_fixed_cut(s, q2, if q2 <= k { k } else { s.len() as int });
            if let Ok((_, q3)) = read_u64(s, q2) {
                lemma_fixed_cut(s, q3, if q3 <= k { k } else { s.len() as int });
            }
        }
    }
}

proof fn lemma_origin_cut(s: Seq<u8>, p: int, k: int)
    requires
        0 <= p <= k <= s.len(),
    ensures
        prefix_stable(read_origin(s, p), read_origin(s.take(k), p), p, k, s.len() as int),
{
    lemma_fixed_cut(s, p, k);
    if let Ok((_, q1)) = read_u64(s, p) {
        lemma_cstr_cut(s, q1, if q1 <= k { k } else { s.len() as int });
    }
}

proof fn lemma_relation_cut(s: Seq<u8>, p: int, k: int)
    requires
        0 <= p <= k <= s.len(),
    ensures
        prefix_stable(read_relation(s, p), read_relation(s.take(k), p), p, k, s.len() as int),
{
    lemma_fixed_cut(s, p, k);
    if let Ok((rel_id, q1)) = read_u32(s, p) {
        lemma_cstr_cut(s, q1, if q1 <= k { k } else { s.len() as int });
        if let Ok((namespace, q2)) = read_cstr(s, q1) {
            lemma_cstr_cut(s, q2, if q2 <= k { k } else { s.len() as int });
            if let Ok((name, q3)) = read_cstr(s, q2) {
                let k3 = if q3 <= k { k } else { s.len() as int };
                lemma_fixed_cut(s, q3, k3);
                if let Ok((tag, q4)) = read_u8(s, q3) {
                    lemma_fixed_cut(s, q4, if q4 <= k { k } else { s.len() as int });
                    if let Ok((n, q5)) = read_i16(s, q4) {
                        lemma_columns_cut(s, q5, n as int, if q5 <= k { k } else { s.len() as int });
                    }
                }
            }
        }
    }
}

proof fn lemma_type_cut(s: Seq<u8>, p: int, k: int)
    requires
        0 <= p <= k <= s.len(),
    ensures
        prefix_stable(read_type(s, p), read_type(s.take(k), p), p, k, s.len() as int),
{
    lemma_fixed_cut(s, p, k);
    if let Ok((_, q1)) = read_u32(s, p) {
        lemma_cstr_cut(s, q1, if q1 <= k { k } else { s.len() as int });
        if let Ok((_, q2)) = read_cstr(s, q1) {
            lemma_cstr_cut(s, q2, if q2 <= k { k } else { s.len() as int });
        }
    }
}

proof fn lemma_insert_cut(s: Seq<u8>, p: int, k: int)
    requires
        0 <= p <= k <= s.len(),
    ensures
        prefix_stable(read_insert(s, p), read_insert(s.take(k), p), p, k, s.len() as int),
{
    lemma_fixed_cut(s, p, k);
    if let Ok((_, q1)) = read_u32(s, p) {
        lemma_new_tuple_cut(s, q1, if q1 <= k { k } else { s.len() as int });
    }
}

proof fn lemma_update_cut(s: Seq<u8>, p: int, k: int)
    requires
        0 <= p <= k <= s.len(),
    ensures
        prefix_stable(read_update(s, p), read_update(s.take(k), p), p, k, s.len() as int),
{
    lemma_fixed_cut(s, p, k);
    if let Ok((rel_id, q1)) = read_u32(s, p) {
        let k1 = if q1 <= k { k } else { s.len() as int };
        lemma_fixed_cut(s, q1, k1);
        if let Ok((tag, q2)) = read_u8(s, q1) {
            lemma_tuple_cut(s, q2, if q2 <= k { k } else { s.len() as int });
            if let Ok((_, q3)) = read_tuple(s, q2) {
                lemma_new_tuple_cut(s, q3, if q3 <= k { k } else { s.len() as int });
            }
        }
        assert(prefix_stable(
            read_update_rest(s, q1, rel_id),
            read_update_rest(s.take(k), q1, rel_id),
            q1,
            k,
            s.len() as int,
        ));
    }
}

proof fn lemma_delete_cut(s: Seq<u8>, p: int, k: int)
    requires
        0 <= p <= k <= s.len(),
    ensures
        prefix_stable(read_delete(s, p), read_delete(s.take(k), p), p, k, s.len() as int),
{
    lemma_fixed_cut(s, p, k);
    if let Ok((_, q1)) = read_u32(s, p) {
        lemma_fixed_cut(s, q1, if q1 <= k { k } else { s.len() as int });
        if let Ok((_, q2)) = read_u8(s, q1) {
            lemma_tuple_cut(s, q2, if q2 <= k { k } else { s.len() as int });
        }
    }
}

proof fn lemma_truncate_cut(s: Seq<u8>, p: int, k: int)
    requires
        0 <= p <= k <= s.len(),
    ensures
        prefix_stable(read_truncate(s, p), read_truncate(s.take(k), p), p, k, s.len() as int),
{
    lemma_fixed_cut(s, p, k);
    if let Ok((n, q1)) = read_i32(s, p) {
        lemma_fixed_cut(s, q1, if q1 <= k { k } else { s.len() as int });
        if let Ok((_, q2)) = read_i8(s, q1) {
            lemma_rel_ids_cut(s, q2, n as int, if q2 <= k { k } else { s.len() as int });
        }
    }
}

proof fn lemma_message_cut(s: Seq<u8>, k: int)
    requires
        0 <= k <= s.len(),
    ensures
        prefix_stable(read_message(s, 0), read_message(s.take(k), 0), 0, k, s.len() as int),
{
    lemma_fixed_cut(s, 0, k);
    if let Ok((_, q)) = read_u8(s, 0) {
        let kq = if q <= k { k } else { s.len() as int };
        lemma_begin_cut(s, q, kq);
        lemma_commit_cut(s, q, kq);
        lemma_origin_cut(s, q, kq);
        lemma_relation_cut(s, q, kq);
        lemma_type_cut(s, q, kq);
        lemma_insert_cut(s, q, kq);
        lemma_update_cut(s, q, kq);
        lemma_delete_cut(s, q, kq);
        lemma_truncate_cut(s, q, kq);
    }
}

/// A payload that decodes, cut anywhere before the end of its message, runs
/// out of bytes: decoding the cut payload gives `UnexpectedEnd`.
pub proof fn lemma_truncated_message(s: Seq<u8>, k: int)
    requires
        match read_message(s, 0) {
            Ok((_, n)) => 0 <= k < n,
            Err(_) => false,
        },
    ensures
        decode(s.take(k)) == Err::<MessageModel, DecodeError>(DecodeError::UnexpectedEnd),
{
    lemma_message_cut(s, s.len() as int);
    lemma_message_cut(s, k);
}

} // verus!
