//! The endpoints of the local HTTP interface that the desktop application
//! calls.

use vstd::prelude::*;
use crate::text::{concat, decimal, usize_to_string};

verus! {

/// The port the interface listens on.
pub const API_PORT: u16 = 3016;

/// The base of every endpoint.
pub const API_BASE: &'static str = "http://localhost:3016";

/// `API_BASE` followed by `path`.
fn at(path: &str) -> (r: String)
    ensures
        r@ == API_BASE@ + path@,
{
    concat(API_BASE, path)
}

/// `s` followed by `t` and `u`.
fn concat3(s: &str, t: &str, u: &str) -> (r: String)
    ensures
        r@ == s@ + t@ + u@,
{
    let a = concat(s, t);
    concat(a.as_str(), u)
}

/// `true` or `false`, as `Display` writes a `bool`.
pub open spec fn bool_text(b: bool) -> Seq<char> {
    if b {
        "true"@
    } else {
        "false"@
    }
}

/// Library statistics.
pub fn stats_url() -> (r: String)
    ensures
        r@ == API_BASE@ + "/stats"@,
{
    at("/stats")
}

/// The most recent `count` items.
pub fn items_url(count: usize) -> (r: String)
    ensures
        r@ == API_BASE@ + "/items?count="@ + decimal(count as nat),
{
    let n = usize_to_string(count);
    concat3(API_BASE, "/items?count=", n.as_str())
}

/// The preview page of an item.
pub fn item_preview_url(id: &str, interactive: bool) -> (r: String)
    ensures
        r@ == API_BASE@ + "/item/"@ + id@ + "/preview?interactive="@ + bool_text(interactive),
{
    let a = concat3(API_BASE, "/item/", id);
    let flag = if interactive {
        "true"
    } else {
        "false"
    };
    concat3(a.as_str(), "/preview?interactive=", flag)
}

/// The full data of an item.
pub fn item_data_url(id: &str) -> (r: String)
    ensures
        r@ == API_BASE@ + "/item/"@ + id@ + "/data"@,
{
    let a = concat3(API_BASE, "/item/", id);
    concat(a.as_str(), "/data")
}

/// Copying an item to the clipboard.
pub fn item_copy_url(id: &str) -> (r: String)
    ensures
        r@ == API_BASE@ + "/item/"@ + id@ + "/copy"@,
{
    let a = concat3(API_BASE, "/item/", id);
    concat(a.as_str(), "/copy")
}

/// Deleting an item.
pub fn item_delete_url(id: &str) -> (r: String)
    ensures
        r@ == API_BASE@ + "/item/"@ + id@,
{
    concat3(API_BASE, "/item/", id)
}

/// The dashboard.
pub fn dashboard_url() -> (r: String)
    ensures
        r@ == API_BASE@ + "/dashboard"@,
{
    at("/dashboard")
}

/// The dashboard opened on one item.
pub fn dashboard_item_url(id: &str) -> (r: String)
    ensures
        r@ == API_BASE@ + "/dashboard?item="@ + id@,
{
    concat3(API_BASE, "/dashboard?item=", id)
}

/// Searching.
pub fn search_url() -> (r: String)
    ensures
        r@ == API_BASE@ + "/search"@,
{
    at("/search")
}

/// The time of the latest change.
pub fn mtime_url() -> (r: String)
    ensures
        r@ == API_BASE@ + "/mtime"@,
{
    at("/mtime")
}

/// The data directory.
pub fn dir_url() -> (r: String)
    ensures
        r@ == API_BASE@ + "/dir"@,
{
    at("/dir")
}

/// Saving an item.
pub fn save_url() -> (r: String)
    ensures
        r@ == API_BASE@ + "/save"@,
{
    at("/save")
}

/// Editing an item.
pub fn item_edit_url(id: &str) -> (r: String)
    ensures
        r@ == API_BASE@ + "/item/"@ + id@,
{
    concat3(API_BASE, "/item/", id)
}

} // verus!
