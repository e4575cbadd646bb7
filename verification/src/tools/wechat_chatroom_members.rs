//! Chatroom rosters, from the rows of the member query on `contact.db`.

use crate::events::{lookup_str, JsonView, Payload};
use crate::types::ChatroomMember;
use vstd::prelude::*;

verus! {

broadcast use vstd::string::group_string_axioms;

/// The contact database file, whose key the roster query needs.
pub const CONTACT_DB_NAME: &'static str = "contact.db";

/// Whether the stored key names hold the contact database's key, without
/// which the roster cannot be read.
pub fn has_contact_db_key(key_names: &Vec<String>) -> (r: bool)
    ensures
        r == exists|i: int| 0 <= i < key_names@.len() && (#[trigger] key_names@[i])@ == CONTACT_DB_NAME@,
{
    let mut i: usize = 0;
    while i < key_names.len()
        invariant
            i <= key_names@.len(),
            forall|k: int| 0 <= k < i ==> (#[trigger] key_names@[k])@ != CONTACT_DB_NAME@,
        decreases key_names.len() - i,
    {
        if crate::text::str_eq(key_names[i].as_str(), CONTACT_DB_NAME) {
            return true;
        }
        i = i + 1;
    }
    false
}

/// The members that roster rows describe, in order: each row with a
/// non-empty string `wxid`, its `nickname` (empty when missing).
pub open spec fn members_of(rows: Seq<Seq<(Seq<char>, JsonView)>>) -> Seq<(Seq<char>, Seq<char>)>
    decreases rows.len(),
{
    if rows.len() == 0 {
        Seq::empty()
    } else {
        let rest = members_of(rows.drop_last());
        match lookup_str(rows.last(), "wxid"@) {
            Some(w) => if w.len() > 0 {
                rest.push(
                    (
                        w,
                        match lookup_str(rows.last(), "nickname"@) {
                            Some(n) => n,
                            None => Seq::empty(),
                        },
                    ),
                )
            } else {
                rest
            },
            None => rest,
        }
    }
}

/// The view of a member.
pub open spec fn member_view(m: ChatroomMember) -> (Seq<char>, Seq<char>) {
    (m.wxid@, m.nickname@)
}

/// The chatroom's members from the rows of the roster query (JSON objects
/// with `wxid` and `nickname`).
pub fn list_chatroom_members(rows: &Vec<Payload>) -> (r: Vec<ChatroomMember>)
    ensures
        r@.map_values(|m: ChatroomMember| member_view(m)) == members_of(rows@.map_values(|p: Payload| p@)),
{
    let ghost rv = rows@.map_values(|p: Payload| p@);
    let mut out: Vec<ChatroomMember> = Vec::new();
    let mut i: usize = 0;
    assert(rv.take(0) =~= Seq::<Seq<(Seq<char>, JsonView)>>::empty());
    assert(out@.map_values(|m: ChatroomMember| member_view(m)) =~= Seq::<(Seq<char>, Seq<char>)>::empty());
    while i < rows.len()
        invariant
            i <= rows@.len(),
            rv == rows@.map_values(|p: Payload| p@),
            out@.map_values(|m: ChatroomMember| member_view(m)) == members_of(rv.take(i as int)),
        decreases rows.len() - i,
    {
        assert(rv.take(i + 1).drop_last() =~= rv.take(i as int));
        assert(rv.take(i + 1).last() == rows@[i as int]@);
        let row = &rows[i];
        if let Some(w) = row.get_str("wxid") {
            if !w.is_empty() {
                let nickname = match row.get_str("nickname") {
                    Some(n) => n.to_string(),
                    None => String::new(),
                };
                let ghost before = out@.map_values(|m: ChatroomMember| member_view(m));
                let m = ChatroomMember { wxid: w.to_string(), nickname };
                let ghost mv = member_view(m);
                out.push(m);
                assert(out@.map_values(|m: ChatroomMember| member_view(m)) =~= before.push(mv));
            }
        }
        i = i + 1;
    }
    assert(rv.take(rows@.len() as int) =~= rv);
    out
}

} // verus!
