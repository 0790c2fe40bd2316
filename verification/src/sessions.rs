//! Looking through the sessions of Codex.

use crate::models::{AppError, ErrorView};
use crate::text;
use crate::text::same_text;
use vstd::prelude::*;

verus! {

/// How many characters may be searched for.
pub const MAX_SESSION_QUERY_CHARS: usize = 256;

/// Which sessions are asked for.
pub struct SessionRequest {
    pub query: String,
    pub page: usize,
    pub page_size: usize,
    pub archived: bool,
}

/// Whether archived sessions are asked for, where that is clear.
pub open spec fn asks_for_archive(status: Option<Seq<char>>) -> Option<bool> {
    match status {
        None => Some(false),
        Some(status) => if status == "active"@ {
            Some(false)
        } else if status == "archived"@ {
            Some(true)
        } else {
            None
        },
    }
}

/// The number of a page; the first where none is given.
pub open spec fn page_number(page: Option<usize>) -> usize {
    match page {
        Some(page) => if page == 0 {
            1
        } else {
            page
        },
        None => 1,
    }
}

/// How many sessions stand on a page.
pub open spec fn size_of_page(page_size: Option<usize>) -> usize {
    match page_size {
        Some(size) => if size == 0 {
            1
        } else if size > 100 {
            100
        } else {
            size
        },
        None => 25,
    }
}

/// What a search is for; nothing where nothing is given.
pub open spec fn searched(query: Option<Seq<char>>) -> Seq<char> {
    match query {
        Some(query) => query,
        None => Seq::empty(),
    }
}

/// Works out which sessions are asked for.
pub fn read_session_request(
    query: Option<&str>,
    page: Option<usize>,
    page_size: Option<usize>,
    status: Option<&str>,
) -> (outcome: Result<SessionRequest, AppError>)
    ensures
        searched(text::text_of(query)).len() > MAX_SESSION_QUERY_CHARS ==> (outcome matches Err(
            error,
        ) && error@ == ErrorView::InvalidConfig("会话搜索内容不能超过 256 个字符。"@)),
        searched(text::text_of(query)).len() <= MAX_SESSION_QUERY_CHARS ==> match asks_for_archive(
            text::text_of(status),
        ) {
            None => outcome matches Err(error) && error@ == ErrorView::InvalidConfig(
                "会话状态只能是 active 或 archived。"@,
            ),
            Some(archived) => outcome matches Ok(request) && request.query@ == searched(
                text::text_of(query),
            ) && request.page == page_number(page) && request.page_size == size_of_page(page_size)
                && request.archived == archived,
        },
{
    let query = match query {
        Some(query) => query.to_owned(),
        None => String::new(),
    };
    if text::chars_of(query.as_str()).len() > MAX_SESSION_QUERY_CHARS {
        return Err(AppError::invalid("会话搜索内容不能超过 256 个字符。"));
    }
    let page: usize = match page {
        Some(page) => if page == 0 {
            1
        } else {
            page
        },
        None => 1,
    };
    let page_size: usize = match page_size {
        Some(size) => if size == 0 {
            1
        } else if size > 100 {
            100
        } else {
            size
        },
        None => 25,
    };
    let archived = match status {
        None => false,
        Some(status) => if same_text(status, "active") {
            false
        } else if same_text(status, "archived") {
            true
        } else {
            return Err(AppError::invalid("会话状态只能是 active 或 archived。"));
        },
    };
    Ok(SessionRequest { query, page, page_size, archived })
}

/// A page that is asked for is given, and its size is kept within 1 and 100; where
/// nothing is asked for, it is the first page, of 25.
pub proof fn law_pages_have_bounds(page: Option<usize>, page_size: Option<usize>)
    ensures
        page_number(page) >= 1,
        page matches Some(page) ==> (page >= 1 ==> page_number(Some(page)) == page),
        1 <= size_of_page(page_size) <= 100,
        page_size matches Some(size) ==> (1 <= size <= 100 ==> size_of_page(Some(size)) == size),
        page_size matches Some(size) ==> (size > 100 ==> size_of_page(Some(size)) == 100),
        page is None ==> page_number(page) == 1,
        page_size is None ==> size_of_page(page_size) == 25,
{
}

/// Sessions in use are asked for unless archived ones are; any other state is
/// refused. What is searched for is what was given.
pub proof fn law_state_of_sessions(query: Seq<char>, status: Seq<char>)
    ensures
        asks_for_archive(None) == Some(false),
        asks_for_archive(Some("active"@)) == Some(false),
        asks_for_archive(Some("archived"@)) == Some(true),
        asks_for_archive(Some(status)) is None <==> status != "active"@ && status != "archived"@,
        searched(Some(query)) == query,
        searched(None).len() == 0,
{
    reveal_strlit("active");
    reveal_strlit("archived");
    assert("active"@.len() == 6 && "archived"@.len() == 8);
}

} // verus!
