//! Names of backup files.

use crate::text::cat3;
use vstd::prelude::*;
use vstd::string::*;

verus! {

/// How many characters an identifier has.
pub open spec fn id_len() -> nat {
    36
}

/// Whether a character is a hexadecimal digit in lower case.
pub open spec fn is_hex(c: char) -> bool {
    '0' <= c <= '9' || 'a' <= c <= 'f'
}

/// Whether a text is a random identifier: hexadecimal digits in lower case, in groups of 8, 4,
/// 4, 4 and 12 with hyphens between them, of version 4 and of the usual variant.
pub open spec fn is_random_id(s: Seq<char>) -> bool {
    &&& s.len() == id_len()
    &&& forall|i: int|
        #![trigger s[i]]
        0 <= i < s.len() ==> if i == 8 || i == 13 || i == 18 || i == 23 {
            s[i] == '-'
        } else {
            is_hex(s[i])
        }
    &&& s[14] == '4'
    &&& s[19] == '8' || s[19] == '9' || s[19] == 'a' || s[19] == 'b'
}

/// `uuid::Uuid::new_v4`, written with `to_string`: a random identifier. It differs from call to
/// call; only its form is claimed. Where the system cannot give random numbers, it panics.
#[verifier::external_body]
fn random_id() -> (res: String)
    ensures
        is_random_id(res@),
{
    uuid::Uuid::new_v4().to_string()
}

/// The name of the backup file of a given identifier.
pub open spec fn backup_file(id: Seq<char>, ext: Seq<char>) -> Seq<char> {
    id + "."@ + ext
}

/// The name of the backup file of a given identifier.
pub fn backup_name(id: &str, ext: &str) -> (res: String)
    ensures
        res@ == backup_file(id@, ext@),
{
    cat3(id, ".", ext)
}

/// A name for a new backup file of extension `ext`.
pub fn new_backup_name(ext: &str) -> (res: String)
    ensures
        is_random_id(res@.take(id_len() as int)),
        res@ == backup_file(res@.take(id_len() as int), ext@),
{
    let id = random_id();
    let res = backup_name(id.as_str(), ext);
    assert(res@.take(id_len() as int) =~= id@);
    res
}

/// Backups of different identifiers have different names, whatever their extensions.
pub proof fn law_backup_names_are_distinct(
    id1: Seq<char>,
    ext1: Seq<char>,
    id2: Seq<char>,
    ext2: Seq<char>,
)
    requires
        is_random_id(id1),
        is_random_id(id2),
        id1 != id2,
    ensures
        backup_file(id1, ext1) != backup_file(id2, ext2),
{
    assert(backup_file(id1, ext1).take(id_len() as int) =~= id1);
    assert(backup_file(id2, ext2).take(id_len() as int) =~= id2);
}

} // verus!
