//! `ISteamApps/GetAppList`: the ids of all apps on Steam.

use vstd::prelude::*;

verus! {

/// The reply: the list of apps.
#[derive(Debug)]
pub struct Response {
    pub app_list: ResponseAppList,
}

/// The apps of the reply.
#[derive(Debug)]
pub struct ResponseAppList {
    pub apps: Vec<ResponseApp>,
}

/// One app of the reply.
#[derive(Debug)]
pub struct ResponseApp {
    pub app_id: i64,
}

/// The request, made with a Web API key.
pub struct Request {
    pub key: String,
}

impl Request {
    /// The address this request is sent to.
    pub open spec fn uri_of(key: Seq<char>) -> Seq<char> {
        "https://api.steampowered.com/ISteamApps/GetAppList/v2/?format=json&key="@ + key
    }
}

impl Request {
    /// The address is the GetAppList endpoint asking for JSON, with the key as the last
    /// query parameter, unchanged.
    pub proof fn law_uri(key: Seq<char>)
        ensures
            ({
                let uri = Request::uri_of(key);
                let base = "https://api.steampowered.com/ISteamApps/GetAppList/v2/?format=json&key="@;
                &&& uri.len() == base.len() + key.len()
                &&& uri.subrange(0, base.len() as int) == base
                &&& uri.subrange(base.len() as int, uri.len() as int) == key
            }),
    {
        let uri = Request::uri_of(key);
        let base = "https://api.steampowered.com/ISteamApps/GetAppList/v2/?format=json&key="@;
        assert(uri.subrange(0, base.len() as int) =~= base);
        assert(uri.subrange(base.len() as int, uri.len() as int) =~= key);
    }
}

impl crate::steam::api_steampowered_com::Request for Request {
    fn uri(&self) -> (r: String)
        ensures
            r@ == Request::uri_of(self.key@),
            r@ == "https://api.steampowered.com/ISteamApps/GetAppList/v2/?format=json&key="@
                + self.key@,
    {
        let mut uri = String::new();
        uri.append("https://api.steampowered.com/ISteamApps/GetAppList/v2/?format=json&key=");
        uri.append(self.key.as_str());
        assert(uri@ =~= Request::uri_of(self.key@));
        uri
    }
}

} // verus!
