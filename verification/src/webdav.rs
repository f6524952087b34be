//! WebDAV remotes: their configuration, the URLs they are reached at, and
//! how a server's answer is judged.
use vstd::prelude::*;
use crate::text::{chars_of, string_of, has_prefix, text_starts_with, concat, trim_end_char};
use crate::storage::{joined_remote_path, join_remote_path};

verus! {

/// How a WebDAV remote was set up.
#[derive(Clone, Copy, Debug, PartialEq, Eq, Structural)]
pub enum WebDavPreset {
    Jianguoyun,
    Custom,
}

/// A WebDAV server used as the sync remote.
#[derive(Clone, Debug)]
pub struct WebDavRemoteConfig {
    pub preset: WebDavPreset,
    pub endpoint_url: String,
    pub username: Option<String>,
    pub base_path: String,
}

/// The Jianguoyun WebDAV endpoint.
pub open spec fn jianguoyun_url() -> Seq<char> {
    "https://dav.jianguoyun.com/dav/"@
}

/// The Jianguoyun WebDAV endpoint.
pub fn jianguoyun_endpoint() -> (s: &'static str)
    ensures
        s@ == jianguoyun_url(),
{
    "https://dav.jianguoyun.com/dav/"
}

/// `s` without its trailing `/`s.
fn trim_end_slashes(s: &str) -> (r: String)
    ensures
        r@ == trim_end_char(s@, '/'),
{
    let v = chars_of(s);
    let mut hi = v.len();
    assert(v@.take(hi as int) =~= v@);
    while hi > 0 && v[hi - 1] == '/'
        invariant
            hi <= v@.len(),
            v@ == s@,
            trim_end_char(s@, '/') == trim_end_char(v@.take(hi as int), '/'),
        decreases hi,
    {
        assert(v@.take(hi as int).drop_last() =~= v@.take(hi - 1));
        hi = hi - 1;
    }
    let mut out: Vec<char> = Vec::new();
    let mut i: usize = 0;
    while i < hi
        invariant
            i <= hi <= v@.len(),
            out@ == v@.take(i as int),
        decreases hi - i,
    {
        out.push(v[i]);
        i = i + 1;
        assert(out@ =~= v@.take(i as int));
    }
    string_of(&out)
}

impl WebDavRemoteConfig {
    /// A Jianguoyun remote.
    pub fn jianguoyun(username: Option<String>, base_path: String) -> (c: Self)
        ensures
            c.preset == WebDavPreset::Jianguoyun,
            c.endpoint_url@ == jianguoyun_url(),
            c.username == username,
            c.base_path == base_path,
    {
        WebDavRemoteConfig {
            preset: WebDavPreset::Jianguoyun,
            endpoint_url: String::from_str(jianguoyun_endpoint()),
            username,
            base_path,
        }
    }

    /// A remote at a WebDAV URL of the user's choice.
    pub fn custom(endpoint_url: String, username: Option<String>, base_path: String) -> (c: Self)
        ensures
            c.preset == WebDavPreset::Custom,
            c.endpoint_url == endpoint_url,
            c.username == username,
            c.base_path == base_path,
    {
        WebDavRemoteConfig { preset: WebDavPreset::Custom, endpoint_url, username, base_path }
    }

    /// The URL of `file_name` on this remote: the endpoint without trailing
    /// `/`, a `/`, and the file's path under the base path.
    pub open spec fn url_for(self, file_name: Seq<char>) -> Seq<char> {
        trim_end_char(self.endpoint_url@, '/') + seq!['/'] + joined_remote_path(self.base_path@, file_name)
    }

    /// The URL of `file_name` on this remote.
    pub fn endpoint_for(&self, file_name: &str) -> (s: String)
        ensures
            s@ == self.url_for(file_name@),
    {
        let base = trim_end_slashes(self.endpoint_url.as_str());
        let remote = join_remote_path(self.base_path.as_str(), file_name);
        proof { reveal_strlit("/"); }
        let a = concat(base.as_str(), "/");
        concat(a.as_str(), remote.as_str())
    }

    /// The URL a connection test is sent to: the endpoint without trailing `/`.
    pub fn test_url(&self) -> (s: String)
        ensures
            s@ == trim_end_char(self.endpoint_url@, '/'),
    {
        trim_end_slashes(self.endpoint_url.as_str())
    }
}

/// The name a preset is written and read by.
pub open spec fn preset_name(p: WebDavPreset) -> Seq<char> {
    match p {
        WebDavPreset::Jianguoyun => "jianguoyun"@,
        WebDavPreset::Custom => "custom"@,
    }
}

/// The name a preset is written and read by.
pub fn format_webdav_preset(preset: &WebDavPreset) -> (s: &'static str)
    ensures
        s@ == preset_name(*preset),
{
    match preset {
        WebDavPreset::Jianguoyun => "jianguoyun",
        WebDavPreset::Custom => "custom",
    }
}

/// The preset a name selects: its English or Chinese name.
pub open spec fn preset_named(value: Seq<char>) -> Option<WebDavPreset> {
    if value == "jianguoyun"@ || value == "坚果云"@ {
        Some(WebDavPreset::Jianguoyun)
    } else if value == "custom"@ || value == "自定义"@ {
        Some(WebDavPreset::Custom)
    } else {
        None
    }
}

/// Reads a preset name; an unknown name is refused with a message naming it.
pub fn parse_preset(value: &str) -> (r: Result<WebDavPreset, String>)
    ensures
        r is Ok <==> preset_named(value@) is Some,
        r matches Ok(p) ==> preset_named(value@) == Some(p),
        r matches Err(e) ==> e@ == "不支持的 WebDAV 配置方式: "@ + value@,
{
    let v = String::from_str(value);
    if v == String::from_str("jianguoyun") || v == String::from_str("坚果云") {
        Ok(WebDavPreset::Jianguoyun)
    } else if v == String::from_str("custom") || v == String::from_str("自定义") {
        Ok(WebDavPreset::Custom)
    } else {
        Err(concat("不支持的 WebDAV 配置方式: ", value))
    }
}

/// The URL starts with `https://` or `http://`.
pub open spec fn endpoint_url_is_valid(value: Seq<char>) -> bool {
    has_prefix(value, "https://"@) || has_prefix(value, "http://"@)
}

/// Accepts a URL that starts with `https://` or `http://`.
pub fn validate_endpoint_url(value: &str) -> (r: Result<(), String>)
    ensures
        r is Ok <==> endpoint_url_is_valid(value@),
        r matches Err(e) ==> e@ == "WebDAV URL 必须以 http:// 或 https:// 开头。"@,
{
    if text_starts_with(value, "https://") || text_starts_with(value, "http://") {
        Ok(())
    } else {
        Err(String::from_str("WebDAV URL 必须以 http:// 或 https:// 开头。"))
    }
}

/// The requests a WebDAV remote makes.
#[derive(Clone, Copy, Debug, PartialEq, Eq, Structural)]
pub enum WebDavMethod {
    Get,
    Put,
    Delete,
    Mkcol,
    Propfind,
}

/// The status code is in the 2xx range.
pub open spec fn is_success(code: u16) -> bool {
    200 <= code <= 299
}

/// Whether a response with this status code counts as done.
pub open spec fn accepted(method: WebDavMethod, code: u16) -> bool {
    match method {
        WebDavMethod::Get => is_success(code),
        WebDavMethod::Put => is_success(code),
        WebDavMethod::Delete => is_success(code) || code == 404,
        WebDavMethod::Mkcol => code == 201 || code == 405,
        WebDavMethod::Propfind => is_success(code) || code == 207,
    }
}

/// The error a refused response gives; `status` is the status as the HTTP
/// client writes it (code and reason), `body` the response text.
pub open spec fn refusal_message(method: WebDavMethod, status: Seq<char>, body: Seq<char>) -> Seq<char> {
    match method {
        WebDavMethod::Get => "WebDAV GET 失败，状态码: "@ + status,
        WebDavMethod::Put => "WebDAV PUT 失败，状态码 "@ + status + ": "@ + body,
        WebDavMethod::Delete => "WebDAV DELETE 失败，状态码 "@ + status + ": "@ + body,
        WebDavMethod::Mkcol => "WebDAV MKCOL 失败，状态码 "@ + status + ": "@ + body,
        WebDavMethod::Propfind => "WebDAV 测试失败，状态码 "@ + status + ": "@ + body,
    }
}

/// Judges a WebDAV server's answer to a request.
pub fn response_outcome(method: WebDavMethod, code: u16, status: &str, body: &str) -> (r: Result<(), String>)
    ensures
        r is Ok <==> accepted(method, code),
        r matches Err(e) ==> e@ == refusal_message(method, status@, body@),
{
    let ok = match method {
        WebDavMethod::Get => 200 <= code && code <= 299,
        WebDavMethod::Put => 200 <= code && code <= 299,
        WebDavMethod::Delete => (200 <= code && code <= 299) || code == 404,
        WebDavMethod::Mkcol => code == 201 || code == 405,
        WebDavMethod::Propfind => (200 <= code && code <= 299) || code == 207,
    };
    if ok {
        return Ok(());
    }
    let head = match method {
        WebDavMethod::Get => "WebDAV GET 失败，状态码: ",
        WebDavMethod::Put => "WebDAV PUT 失败，状态码 ",
        WebDavMethod::Delete => "WebDAV DELETE 失败，状态码 ",
        WebDavMethod::Mkcol => "WebDAV MKCOL 失败，状态码 ",
        WebDavMethod::Propfind => "WebDAV 测试失败，状态码 ",
    };
    let mut s = concat(head, status);
    match method {
        WebDavMethod::Get => {},
        _ => {
            s.append(": ");
            s.append(body);
        },
    }
    Err(s)
}

} // verus!
