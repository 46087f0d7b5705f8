use vstd::prelude::*;

verus! {

/// A clipboard history entry.
#[derive(Debug, Clone)]
pub struct ClipboardItem {
    pub id: i64,
    pub uuid: Option<String>,
    pub favorite_id: Option<String>,
    pub source_device_id: Option<String>,
    pub is_remote: bool,
    pub content: String,
    pub html_content: Option<String>,
    pub content_type: String,
    pub image_id: Option<String>,
    pub item_order: i64,
    pub is_pinned: bool,
    pub paste_count: i64,
    pub source_app: Option<String>,
    pub source_icon_hash: Option<String>,
    pub char_count: Option<i64>,
    pub created_at: i64,
    pub updated_at: i64,
}

/// One raw clipboard format stored for an entry.
#[derive(Debug, Clone)]
pub struct ClipboardDataItem {
    pub id: i64,
    pub target_kind: String,
    pub target_id: String,
    pub format_name: String,
    pub raw_data: Vec<u8>,
    pub is_primary: bool,
    pub format_order: i64,
    pub created_at: i64,
    pub updated_at: i64,
}

/// A raw clipboard format about to be stored.
#[derive(Debug, Clone)]
pub struct ClipboardDataSeed {
    pub format_name: String,
    pub raw_data: Vec<u8>,
    pub is_primary: bool,
    pub format_order: i64,
}

/// A way to paste an entry.
#[derive(Debug, Clone)]
pub struct PasteOption {
    pub id: String,
    pub kind: String,
    pub source_format_name: Option<String>,
    pub is_primary: bool,
}

/// A favourite entry.
#[derive(Debug, Clone)]
pub struct FavoriteItem {
    pub id: String,
    pub title: String,
    pub content: String,
    pub html_content: Option<String>,
    pub content_type: String,
    pub image_id: Option<String>,
    pub group_name: String,
    pub item_order: i64,
    pub paste_count: i64,
    pub char_count: Option<i64>,
    pub created_at: i64,
    pub updated_at: i64,
}

/// A favourites group.
#[derive(Debug, Clone)]
pub struct GroupInfo {
    pub name: String,
    pub icon: String,
    pub color: String,
    pub order: i32,
    pub item_count: i32,
}

/// One page of a query's results.
#[derive(Debug, Clone)]
pub struct PaginatedResult<T> {
    pub total_count: i64,
    pub items: Vec<T>,
    pub offset: i64,
    pub limit: i64,
    pub has_more: bool,
}

impl<T> PaginatedResult<T> {
    /// A page; more pages follow exactly when the entries up to the end of
    /// this page are fewer than the total.
    pub fn new(total_count: i64, items: Vec<T>, offset: i64, limit: i64) -> (r: Self)
        ensures
            r.total_count == total_count,
            r.items@ == items@,
            r.offset == offset,
            r.limit == limit,
            r.has_more == (offset + items@.len() < total_count),
    {
        let items_len = items.len() as i128;
        let has_more = (offset as i128) + items_len < (total_count as i128);
        PaginatedResult { total_count, items, offset, limit, has_more }
    }
}

/// Parameters of a history query.
#[derive(Debug, Clone)]
pub struct QueryParams {
    pub offset: i64,
    pub limit: i64,
    pub search: Option<String>,
    pub content_type: Option<String>,
    pub paste_status: Option<String>,
}

impl Default for QueryParams {
    /// The first page of fifty entries, unfiltered.
    fn default() -> (p: Self)
        ensures
            p.offset == 0,
            p.limit == 50,
            p.search is None,
            p.content_type is None,
            p.paste_status is None,
    {
        QueryParams { offset: 0, limit: 50, search: None, content_type: None, paste_status: None }
    }
}

/// Parameters of a favourites query.
#[derive(Debug, Clone)]
pub struct FavoritesQueryParams {
    pub offset: i64,
    pub limit: i64,
    pub group_name: Option<String>,
    pub search: Option<String>,
    pub content_type: Option<String>,
    pub paste_status: Option<String>,
}

impl Default for FavoritesQueryParams {
    /// The first page of fifty entries of all groups, unfiltered.
    fn default() -> (p: Self)
        ensures
            p.offset == 0,
            p.limit == 50,
            p.group_name is None,
            p.search is None,
            p.content_type is None,
            p.paste_status is None,
    {
        FavoritesQueryParams {
            offset: 0,
            limit: 50,
            group_name: None,
            search: None,
            content_type: None,
            paste_status: None,
        }
    }
}

} // verus!
