//! Usage and its price: what is shown of the official prices, and how they
//! are brought up to date.

use crate::models::{AppError, ErrorView};
use crate::text;
use crate::text::same_text;
use vstd::prelude::*;

verus! {

/// The most bytes that a list of prices may have.
pub const MAX_DOCUMENT_BYTES: usize = 524288;

/// The prices of a model.
pub struct TokenRates {
    pub input: Option<u64>,
    pub cached_input: Option<u64>,
    pub cache_write: Option<u64>,
    pub output: Option<u64>,
}

/// The prices of a model, for short requests and, where they differ, for long
/// ones.
pub struct ModelRate {
    pub model: String,
    pub long_context_threshold: Option<u64>,
    pub short: TokenRates,
    pub long: Option<TokenRates>,
}

/// The official prices.
pub struct OfficialPricingCatalog {
    pub source_url: String,
    pub version: String,
    pub content_sha256: String,
    pub fetched_at_ms: i64,
    pub etag: Option<String>,
    pub last_modified: Option<String>,
    pub models: Vec<ModelRate>,
}

/// What is shown of the official prices.
pub struct OfficialPricingCatalogView {
    pub status: String,
    pub source_url: String,
    pub version: Option<String>,
    pub content_sha256: Option<String>,
    pub fetched_at_ms: Option<i64>,
    pub etag: Option<String>,
    pub model_count: usize,
    pub models: Vec<String>,
    pub rates: Vec<ModelRate>,
}

/// What is shown of the official prices, where there are any.
pub fn catalog_view(catalog: Option<OfficialPricingCatalog>, source_url: &str) -> (view:
    OfficialPricingCatalogView)
    ensures
        view.models.len() == 0,
        match catalog {
            Some(catalog) => {
                &&& view.status@ == "cached"@
                &&& view.source_url == catalog.source_url
                &&& view.version == Some(catalog.version)
                &&& view.content_sha256 == Some(catalog.content_sha256)
                &&& view.fetched_at_ms == Some(catalog.fetched_at_ms)
                &&& view.etag == catalog.etag
                &&& view.model_count == catalog.models.len()
                &&& view.rates == catalog.models
            },
            None => {
                &&& view.status@ == "waiting"@
                &&& view.source_url@ == source_url@
                &&& view.version is None
                &&& view.content_sha256 is None
                &&& view.fetched_at_ms is None
                &&& view.etag is None
                &&& view.model_count == 0
                &&& view.rates.len() == 0
            },
        },
{
    match catalog {
        Some(catalog) => OfficialPricingCatalogView {
            status: "cached".to_owned(),
            source_url: catalog.source_url,
            version: Some(catalog.version),
            content_sha256: Some(catalog.content_sha256),
            fetched_at_ms: Some(catalog.fetched_at_ms),
            etag: catalog.etag,
            model_count: catalog.models.len(),
            models: Vec::new(),
            rates: catalog.models,
        },
        None => OfficialPricingCatalogView {
            status: "waiting".to_owned(),
            source_url: source_url.to_owned(),
            version: None,
            content_sha256: None,
            fetched_at_ms: None,
            etag: None,
            model_count: 0,
            models: Vec::new(),
            rates: Vec::new(),
        },
    }
}

/// Makes sure that a host and a scheme are those where prices are published.
pub fn check_pricing_source(host: Option<&str>, scheme: &str) -> (outcome: Result<(), AppError>)
    ensures
        outcome is Ok <==> text::text_of(host) == Some("developers.openai.com"@) && scheme@
            == "https"@,
        outcome matches Err(error) ==> error@ == ErrorView::Internal("官方价格地址域名校验失败。"@),
{
    let known = match host {
        Some(host) => same_text(host, "developers.openai.com"),
        None => false,
    };
    if known && same_text(scheme, "https") {
        Ok(())
    } else {
        Err(AppError::internal("官方价格地址域名校验失败。"))
    }
}

/// Makes sure that an address is one where prices are published.
pub fn check_pricing_url(source_url: &str) -> (outcome: Result<(), AppError>)
    ensures
        match address_parts(source_url@) {
            Ok((scheme, host)) => {
                &&& outcome is Ok <==> host == Some("developers.openai.com"@) && scheme == "https"@
                &&& outcome matches Err(error) ==> error@ == ErrorView::Internal(
                    "官方价格地址域名校验失败。"@,
                )
            },
            Err(message) => outcome matches Err(error) && error@ == ErrorView::Internal(
                "官方价格地址无效："@ + message,
            ),
        },
{
    match parse_address(source_url) {
        Ok((scheme, host)) => {
            let host = match &host {
                Some(host) => Some(host.as_str()),
                None => None,
            };
            check_pricing_source(host, scheme.as_str())
        },
        Err(message) => Err(
            AppError::Internal(text::concat("官方价格地址无效：", message.as_str())),
        ),
    }
}

/// The scheme and the host that `reqwest::Url::parse` reads out of an address,
/// or its error in words.
pub uninterp spec fn address_parts(address: Seq<char>) -> Result<
    (Seq<char>, Option<Seq<char>>),
    Seq<char>,
>;

/// What an address was taken apart into, or the error.
spec fn parts_result(parts: Result<(String, Option<String>), String>) -> Result<
    (Seq<char>, Option<Seq<char>>),
    Seq<char>,
> {
    match parts {
        Ok((scheme, host)) => Ok((scheme@, text::string_of(host))),
        Err(message) => Err(message@),
    }
}

/// `reqwest::Url::parse` reads an address, and `scheme` and `host_str` give
/// these two parts of it. The outcome is a function of the address. The error
/// comes in the words of its `Display`.
#[verifier::external_body]
fn parse_address(address: &str) -> (parts: Result<(String, Option<String>), String>)
    ensures
        parts_result(parts) == address_parts(address@),
{
    match reqwest::Url::parse(address) {
        Ok(url) => Ok((url.scheme().to_owned(), url.host_str().map(|host| host.to_owned()))),
        Err(error) => Err(error.to_string()),
    }
}

/// What follows the answer to a question for prices.
pub enum PricingStep {
    /// The prices that are known still hold.
    Unchanged,
    /// Read the list.
    Read,
    /// Give up, and keep the prices that are known.
    GiveUp(AppError),
}

/// What follows the answer to a question for prices: its status, the words
/// for that, and the length of the list where it is told.
pub fn read_pricing_answer(status: u16, status_text: &str, length: Option<u64>) -> (step:
    PricingStep)
    ensures
        status == 304 ==> step is Unchanged,
        status != 304 && !(200 <= status < 300) ==> (step matches PricingStep::GiveUp(error)
            && error@ == ErrorView::Internal(
            "官方价格服务返回 HTTP "@ + status_text@ + "，已保留上次缓存。"@,
        )),
        200 <= status < 300 && (length matches Some(length) && length > MAX_DOCUMENT_BYTES) ==> (
        step matches PricingStep::GiveUp(error) && error@ == ErrorView::Internal(
            "官方价格文档超过 512KB 限制，已保留上次缓存。"@,
        )),
        200 <= status < 300 && !(length matches Some(length) && length > MAX_DOCUMENT_BYTES)
            ==> step is Read,
{
    if status == 304 {
        return PricingStep::Unchanged;
    }
    if status < 200 || status >= 300 {
        let mut message = text::concat("官方价格服务返回 HTTP ", status_text);
        message.append("，已保留上次缓存。");
        return PricingStep::GiveUp(AppError::Internal(message));
    }
    if let Some(length) = length {
        if length > MAX_DOCUMENT_BYTES as u64 {
            return PricingStep::GiveUp(
                AppError::internal("官方价格文档超过 512KB 限制，已保留上次缓存。"),
            );
        }
    }
    PricingStep::Read
}

/// Adds a piece to a list of prices that is being read, as long as it stays
/// within bounds.
pub fn take_piece(document: &mut Vec<u8>, piece: &Vec<u8>) -> (outcome: Result<(), AppError>)
    ensures
        old(document).len() + piece.len() > MAX_DOCUMENT_BYTES ==> (outcome matches Err(error)
            && error@ == ErrorView::Internal("官方价格文档超过 512KB 限制，已保留上次缓存。"@)
            && final(document)@ == old(document)@),
        old(document).len() + piece.len() <= MAX_DOCUMENT_BYTES ==> outcome is Ok,
        old(document).len() + piece.len() <= MAX_DOCUMENT_BYTES ==> final(document)@ == old(
            document,
        )@ + piece@,
{
    let fits = document.len() <= MAX_DOCUMENT_BYTES && piece.len() <= MAX_DOCUMENT_BYTES
        - document.len();
    if !fits {
        return Err(AppError::internal("官方价格文档超过 512KB 限制，已保留上次缓存。"));
    }
    let ghost before = document@;
    for index in 0..piece.len()
        invariant
            document@ == before + piece@.take(index as int),
    {
        document.push(piece[index]);
        assert(document@ =~= before + piece@.take(index + 1));
    }
    assert(piece@.take(piece.len() as int) =~= piece@);
    Ok(())
}

/// The text of a list of prices.
pub fn pricing_text(document: &Vec<u8>) -> (outcome: Result<String, AppError>)
    ensures
        match text::utf8_text_of(document@) {
            Some(source) => outcome matches Ok(found) && found@ == source,
            None => outcome matches Err(error) && error@ == ErrorView::Internal(
                "官方价格文档不是 UTF-8。"@,
            ),
        },
{
    match text::utf8_text(document.as_slice()) {
        Some(source) => Ok(source),
        None => Err(AppError::internal("官方价格文档不是 UTF-8。")),
    }
}

/// Something to tell about a reading of usage.
pub struct UsageWarning {
    pub path: Option<String>,
    pub message: String,
}

/// Tells of lines that were not finished yet, where there are any.
pub fn add_partial_warning(warnings: &mut Vec<UsageWarning>, partial_lines: u64)
    ensures
        partial_lines == 0 ==> final(warnings)@ == old(warnings)@,
        partial_lines > 0 ==> final(warnings).len() == old(warnings).len() + 1,
        partial_lines > 0 ==> final(warnings)@.drop_last() == old(warnings)@,
        partial_lines > 0 ==> final(warnings)@.last().path is None,
        partial_lines > 0 ==> final(warnings)@.last().message@ == "有 "@ + text::decimal(
            partial_lines as nat,
        ) + " 条日志行尚未写完，将在下一次刷新时继续读取。"@,
{
    if partial_lines == 0 {
        return;
    }
    let mut message = text::concat("有 ", text::decimal_text(partial_lines as u128).as_str());
    message.append(" 条日志行尚未写完，将在下一次刷新时继续读取。");
    let ghost before = warnings@;
    warnings.push(UsageWarning { path: None, message });
    assert(warnings@.drop_last() =~= before);
}

} // verus!
