//! The command surface a caller dispatches to: small pure commands, the
//! read-side queries rendered as `ImageInfo`, and deletion, which takes
//! the catalog row and the blob model together.

use vstd::prelude::*;
use vstd::string::*;
use crate::catalog::{Catalog, search_spec};
use crate::errors::CatalogError;
use crate::record::{ImageRecord, ImageInfo, info_of};
use crate::store::BlobStore;
use crate::text::{str_concat, all_space, u64_to_dec, dec_str};

verus! {

/// A friendly greeting for `name`.
pub fn greet(name: &str) -> (r: String)
    ensures
        r@ == "Hello, "@ + name@ + "! You've been greeted from Rust!"@,
{
    let mut s = str_concat("Hello, ", name);
    s.append("! You've been greeted from Rust!");
    proof {
        assert(s@ =~= "Hello, "@ + name@ + "! You've been greeted from Rust!"@);
    }
    s
}

/// Answers a liveness probe.
pub fn ping() -> (r: String)
    ensures
        r@ == "pong"@,
{
    String::from_str("pong")
}

/// The versions the caller reports of itself.
#[derive(Debug, Clone, PartialEq, Eq)]
pub struct SystemInfo {
    pub version: String,
    pub rust_version: String,
}

/// Bundles the caller's build-time version strings.
pub fn get_system_info(version: String, rust_version: String) -> (r: SystemInfo)
    ensures
        r.version == version,
        r.rust_version == rust_version,
{
    SystemInfo { version: version, rust_version: rust_version }
}

/// Checks the shared secret and mints a session token: a day's expiry
/// and the subject, written as a small JSON object.
pub fn login(password: &String, now_secs: u64) -> (r: Result<String, String>)
    requires
        now_secs <= u64::MAX - 86400,
    ensures
        password@ != "admin"@ ==> (r matches Err(m) && m@ == "wrong password"@),
        password@ == "admin"@ ==> (r matches Ok(tok) && tok@ == "{\"exp\":"@ + dec_str(
            now_secs + 86400,
        ) + ",\"sub\":\"admin\"}"@),
{
    let admin = String::from_str("admin");
    if !password.eq(&admin) {
        return Err(String::from_str("wrong password"));
    }
    let exp: u64 = now_secs + 86400;
    let num = u64_to_dec(exp);
    let mut tok = str_concat("{\"exp\":", num.as_str());
    tok.append(",\"sub\":\"admin\"}");
    proof {
        assert(tok@ =~= "{\"exp\":"@ + dec_str(now_secs + 86400) + ",\"sub\":\"admin\"}"@);
    }
    Ok(tok)
}

/// Renders rows for a caller, keeping their order.
fn infos_of(recs: Vec<ImageRecord>) -> (r: Vec<ImageInfo>)
    ensures
        r@.len() == recs@.len(),
        forall|k: int| 0 <= k < r@.len() ==> r@[k] == info_of(recs@[k]),
{
    let n = recs.len();
    let mut out: Vec<ImageInfo> = Vec::new();
    let mut i: usize = 0;
    while i < n
        invariant
            n == recs@.len(),
            0 <= i <= n,
            out@.len() == i,
            forall|k: int| 0 <= k < i ==> out@[k] == info_of(recs@[k]),
        decreases n - i,
    {
        let rec = recs[i].copy_rec();
        out.push(ImageInfo::from(rec));
        i = i + 1;
    }
    out
}

/// Every live row, newest first, rendered for a caller.
pub fn get_all_images(cat: &Catalog) -> (r: Vec<ImageInfo>)
    ensures
        r@.len() == cat.rows().len(),
        forall|k: int|
            0 <= k < r@.len() ==> r@[k] == info_of(cat.rows()[cat.rows().len() - 1 - k]),
{
    infos_of(cat.get_all_images())
}

/// The rows matching `query`, newest first, rendered for a caller; a
/// blank query lists everything.
pub fn search_images(cat: &Catalog, query: &String) -> (r: Vec<ImageInfo>)
    ensures
        all_space(query@) ==> r@.len() == cat.rows().len() && forall|k: int|
            0 <= k < r@.len() ==> r@[k] == info_of(cat.rows()[cat.rows().len() - 1 - k]),
        !all_space(query@) ==> r@.len() == search_spec(cat.rows(), query@).len() && forall|k: int|
            0 <= k < r@.len() ==> r@[k] == info_of(search_spec(cat.rows(), query@)[k]),
{
    infos_of(cat.search_images(query))
}

/// The row with `id`, rendered for a caller, or `NotFound`.
pub fn get_image_by_id(cat: &Catalog, id: i32) -> (r: Result<ImageInfo, CatalogError>)
    requires
        cat.wf(),
    ensures
        !cat.spec_has_id(id as int) ==> r == Err::<ImageInfo, CatalogError>(CatalogError::NotFound),
        cat.spec_has_id(id as int) ==> (r matches Ok(info) && info == info_of(
            cat.row_of_id(id as int),
        )),
{
    match cat.get_image_by_id(id) {
        Ok(rec) => Ok(ImageInfo::from(rec)),
        Err(e) => Err(e),
    }
}

/// Deletes the row with `id` and the blob its path names, and hands the
/// path back so the caller can remove the real file. `NotFound` leaves
/// both untouched.
pub fn delete_image(cat: &mut Catalog, store: &mut BlobStore, id: i32) -> (r: Result<
    String,
    CatalogError,
>)
    requires
        old(cat).wf(),
        old(store).wf(),
    ensures
        final(cat).wf(),
        final(store).wf(),
        !old(cat).spec_has_id(id as int) ==> r == Err::<String, CatalogError>(
            CatalogError::NotFound,
        ) && *final(cat) == *old(cat) && *final(store) == *old(store),
        old(cat).spec_has_id(id as int) ==> (r matches Ok(p) && p@ == old(cat).row_of_id(
            id as int,
        ).path@ && final(cat).rows() == old(cat).rows().remove(old(cat).ix_of_id(id as int))
            && !final(store).spec_has(p@) && (forall|q: Seq<char>|
            q != p@ ==> final(store).spec_has(q) == old(store).spec_has(q))),
        !final(cat).spec_has_id(id as int),
{
    let rec = match cat.delete_image(id) {
        Ok(rec) => rec,
        Err(e) => {
            return Err(e);
        },
    };
    store.remove_blob(&rec.path);
    Ok(rec.path)
}

} // verus!
