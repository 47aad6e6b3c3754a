//! Checking the reply of the public-IP service and combining the answers of
//! the proxied and the direct query.

use vstd::prelude::*;
use vstd::string::*;
use crate::json::{
    json_error_text, json_member_text, json_string_member, json_parse_error, lookup_json_member,
    lookup_json_string,
};
use crate::settings::ZoneCatalog;
use crate::text::{str_chars, trim, trim_bounds};

verus! {

/// The environment variables that configure a proxy for the query.
pub open spec fn proxy_variable_names() -> Seq<Seq<char>> {
    seq!["HTTPS_PROXY"@, "https_proxy"@, "HTTP_PROXY"@, "http_proxy"@, "ALL_PROXY"@, "all_proxy"@]
}

/// The names of the proxy variables, in the order of `proxy_variable_names`.
pub fn proxy_variables() -> (res: Vec<&'static str>)
    ensures
        res@.map_values(|s: &str| s@) == proxy_variable_names(),
{
    let v = vec!["HTTPS_PROXY", "https_proxy", "HTTP_PROXY", "http_proxy", "ALL_PROXY", "all_proxy"];
    assert(v@.map_values(|s: &str| s@) =~= proxy_variable_names());
    v
}

/// The proxy variables are six different names: `HTTPS_PROXY`,
/// `HTTP_PROXY` and `ALL_PROXY`, each in upper and in lower case.
pub proof fn law_proxy_variables(name: Seq<char>)
    ensures
        proxy_variable_names().len() == 6,
        proxy_variable_names().no_duplicates(),
        proxy_variable_names().contains(name) <==> (name == "HTTPS_PROXY"@ || name == "https_proxy"@
            || name == "HTTP_PROXY"@ || name == "http_proxy"@ || name == "ALL_PROXY"@ || name == "all_proxy"@),
{
    reveal_strlit("HTTPS_PROXY");
    reveal_strlit("https_proxy");
    reveal_strlit("HTTP_PROXY");
    reveal_strlit("http_proxy");
    reveal_strlit("ALL_PROXY");
    reveal_strlit("all_proxy");
    let ns = proxy_variable_names();
    assert(ns[0] == "HTTPS_PROXY"@ && ns[1] == "https_proxy"@ && ns[2] == "HTTP_PROXY"@);
    assert(ns[3] == "http_proxy"@ && ns[4] == "ALL_PROXY"@ && ns[5] == "all_proxy"@);
    assert(ns[0][0] != ns[1][0]);
    assert(ns[2][0] != ns[3][0]);
    assert(ns[4][0] != ns[5][0]);
    assert(ns[0][0] != ns[5][0] && ns[1][0] != ns[4][0] && ns[0][0] != ns[4][0] && ns[1][0] != ns[5][0]);
    assert(ns[2][0] != ns[5][0] && ns[3][0] != ns[4][0] && ns[2][0] != ns[4][0] && ns[3][0] != ns[5][0]);
    assert(ns[0][0] != ns[3][0] && ns[1][0] != ns[2][0]);
    assert(ns[0].len() != ns[2].len() && ns[0].len() != ns[3].len() && ns[1].len() != ns[2].len() && ns[1].len() != ns[3].len());
    assert forall|i: int, j: int| 0 <= i < ns.len() && 0 <= j < ns.len() && i != j implies ns[i] != ns[j] by {
        if ns[i] == ns[j] {
            assert(ns[i][0] == ns[j][0]);
            assert(ns[i].len() == ns[j].len());
        }
    }
    if ns.contains(name) {
        let k = choose|k: int| 0 <= k < ns.len() && ns[k] == name;
    }
    if name == "HTTPS_PROXY"@ { assert(ns[0] == name); }
    if name == "https_proxy"@ { assert(ns[1] == name); }
    if name == "HTTP_PROXY"@ { assert(ns[2] == name); }
    if name == "http_proxy"@ { assert(ns[3] == name); }
    if name == "ALL_PROXY"@ { assert(ns[4] == name); }
    if name == "all_proxy"@ { assert(ns[5] == name); }
}

/// Whether some proxy variable is set to a non-empty value.
pub open spec fn spec_proxy_configured(values: Seq<Option<Seq<char>>>) -> bool {
    exists|i: int| 0 <= i < values.len() && (#[trigger] values[i] matches Some(v) && v.len() > 0)
}

/// Whether a proxy is configured, given the value of each proxy variable
/// (`None` where it is unset).
pub fn proxy_configured(values: &Vec<Option<String>>) -> (res: bool)
    ensures
        res == spec_proxy_configured(values.deep_view()),
{
    let mut i: usize = 0;
    while i < values.len()
        invariant
            i <= values.len(),
            forall|k: int| 0 <= k < i ==> !(#[trigger] values.deep_view()[k] matches Some(v) && v.len() > 0),
        decreases values.len() - i,
    {
        match &values[i] {
            Some(v) => {
                if v.as_str().unicode_len() > 0 {
                    assert(values.deep_view()[i as int] == Some(v@));
                    return true;
                }
            },
            None => {},
        }
        i = i + 1;
    }
    false
}

/// What the public-IP service reported. The city and country are passed on
/// as the service wrote them: the JSON text of its `city` and `country_name`
/// members, `None` where a member is absent.
#[derive(Debug)]
pub struct PublicIp {
    pub ip: String,
    pub timezone: String,
    pub city_json: Option<String>,
    pub country_json: Option<String>,
    pub via_proxy: bool,
}

/// The plain values of a `PublicIp`.
pub struct PublicIpView {
    pub ip: Seq<char>,
    pub timezone: Seq<char>,
    pub city_json: Option<Seq<char>>,
    pub country_json: Option<Seq<char>>,
    pub via_proxy: bool,
}

impl View for PublicIp {
    type V = PublicIpView;

    open spec fn view(&self) -> PublicIpView {
        PublicIpView {
            ip: self.ip@,
            timezone: self.timezone@,
            city_json: self.city_json.deep_view(),
            country_json: self.country_json.deep_view(),
            via_proxy: self.via_proxy,
        }
    }
}

/// The answer to the public-IP query, given the members that the reply
/// holds: the `ip` and `timezone` strings, and the JSON text of the `city`
/// and `country_name` members. Refused when the address or the zone is
/// missing or blank, or when the catalog lacks the zone.
pub open spec fn spec_public_ip_fields(
    ip: Option<Seq<char>>,
    zone: Option<Seq<char>>,
    city: Option<Seq<char>>,
    country: Option<Seq<char>>,
    via_proxy: bool,
    zones: Seq<Seq<char>>,
) -> Result<PublicIpView, Seq<char>> {
    if !(ip matches Some(a) && trim(a).len() > 0) {
        Err("公网 IP 服务未返回地址。"@)
    } else if !(zone matches Some(z) && trim(z).len() > 0) {
        Err("公网 IP 服务未返回时区。"@)
    } else if !zones.contains(zone->0) {
        Err("公网 IP 返回了未收录的时区："@ + zone->0)
    } else {
        Ok(PublicIpView { ip: ip->0, timezone: zone->0, city_json: city, country_json: country, via_proxy })
    }
}

/// The answer to the public-IP query, given the service's reply `reply`:
/// refused when the reply is not JSON, else as `spec_public_ip_fields`
/// decides on its members.
pub open spec fn spec_public_ip(reply: Seq<u8>, via_proxy: bool, zones: Seq<Seq<char>>) -> Result<PublicIpView, Seq<char>> {
    match json_error_text(reply) {
        Some(e) => Err("公网 IP 服务返回无效数据："@ + e),
        None => spec_public_ip_fields(
            json_string_member(reply, "ip"@),
            json_string_member(reply, "timezone"@),
            json_member_text(reply, "city"@),
            json_member_text(reply, "country_name"@),
            via_proxy,
            zones,
        ),
    }
}

fn non_blank(s: &str) -> (res: bool)
    ensures
        res == (trim(s@).len() > 0),
{
    let cs = str_chars(s);
    let (a, b) = trim_bounds(&cs, 0, cs.len());
    assert(cs@.subrange(0, cs@.len() as int) =~= cs@);
    a < b
}

/// Checks the members of a public-IP reply and builds the answer from them.
pub fn public_ip_from_fields(
    ip: Option<String>,
    zone: Option<String>,
    city: Option<String>,
    country: Option<String>,
    via_proxy: bool,
    zones: &ZoneCatalog,
) -> (res: Result<PublicIp, String>)
    ensures
        match res {
            Ok(p) => spec_public_ip_fields(ip.deep_view(), zone.deep_view(), city.deep_view(), country.deep_view(), via_proxy, zones@)
                == Ok::<PublicIpView, Seq<char>>(p@),
            Err(e) => spec_public_ip_fields(ip.deep_view(), zone.deep_view(), city.deep_view(), country.deep_view(), via_proxy, zones@)
                == Err::<PublicIpView, Seq<char>>(e@),
        },
{
    let ip = match ip {
        Some(a) => if non_blank(a.as_str()) {
            a
        } else {
            return Err("公网 IP 服务未返回地址。".to_owned());
        },
        None => return Err("公网 IP 服务未返回地址。".to_owned()),
    };
    let zone = match zone {
        Some(z) => if non_blank(z.as_str()) {
            z
        } else {
            return Err("公网 IP 服务未返回时区。".to_owned());
        },
        None => return Err("公网 IP 服务未返回时区。".to_owned()),
    };
    if !zones.contains(zone.as_str()) {
        let mut m = "公网 IP 返回了未收录的时区：".to_owned();
        m.append(zone.as_str());
        return Err(m);
    }
    Ok(PublicIp { ip, timezone: zone, city_json: city, country_json: country, via_proxy })
}

/// Checks the public-IP service's reply `reply` (the body it sent) and takes
/// out the address, zone, city and country.
pub fn public_ip_from_reply(reply: &[u8], via_proxy: bool, zones: &ZoneCatalog) -> (res: Result<PublicIp, String>)
    ensures
        match res {
            Ok(p) => spec_public_ip(reply@, via_proxy, zones@) == Ok::<PublicIpView, Seq<char>>(p@),
            Err(e) => spec_public_ip(reply@, via_proxy, zones@) == Err::<PublicIpView, Seq<char>>(e@),
        },
{
    match json_parse_error(reply) {
        Some(e) => {
            let mut m = "公网 IP 服务返回无效数据：".to_owned();
            m.append(e.as_str());
            Err(m)
        },
        None => public_ip_from_fields(
            lookup_json_string(reply, "ip"),
            lookup_json_string(reply, "timezone"),
            lookup_json_member(reply, "city"),
            lookup_json_member(reply, "country_name"),
            via_proxy,
            zones,
        ),
    }
}

/// The services asked for the public address and zone, in the order tried;
/// each answers with a JSON object that has `ip`, `timezone`, `city` and
/// `country_name` members.
pub open spec fn public_ip_services() -> Seq<Seq<char>> {
    seq!["https://ipinfo.io/json"@, "https://ipapi.co/json/"@]
}

/// The addresses of the public-IP services, in the order of `public_ip_services`.
pub fn public_ip_service_urls() -> (res: Vec<&'static str>)
    ensures
        res@.map_values(|s: &str| s@) == public_ip_services(),
{
    let v = vec!["https://ipinfo.io/json", "https://ipapi.co/json/"];
    assert(v@.map_values(|s: &str| s@) =~= public_ip_services());
    v
}

/// What one route (through the proxy, or direct) reports, given what each
/// service on it sent, in the order asked (`None` where the query failed):
/// the first reply that is accepted, or `None` when every query failed or
/// every reply was refused.
pub open spec fn spec_route_answer(replies: Seq<Option<Seq<u8>>>, via_proxy: bool, zones: Seq<Seq<char>>) -> Option<PublicIpView>
    decreases replies.len(),
{
    if replies.len() == 0 {
        None
    } else {
        match replies[0] {
            Some(r) => match spec_public_ip(r, via_proxy, zones) {
                Ok(p) => Some(p),
                Err(_) => spec_route_answer(replies.drop_first(), via_proxy, zones),
            },
            None => spec_route_answer(replies.drop_first(), via_proxy, zones),
        }
    }
}

/// Whether the reply of a service was accepted.
pub open spec fn reply_accepted(reply: Option<Seq<u8>>, via_proxy: bool, zones: Seq<Seq<char>>) -> bool {
    reply matches Some(r) && spec_public_ip(r, via_proxy, zones) is Ok
}

/// The answer of a route whose services sent `replies`, in the order asked.
pub fn route_answer(replies: &Vec<Option<Vec<u8>>>, via_proxy: bool, zones: &ZoneCatalog) -> (res: Option<PublicIp>)
    ensures
        match res {
            Some(p) => spec_route_answer(replies.deep_view(), via_proxy, zones@) == Some(p@),
            None => spec_route_answer(replies.deep_view(), via_proxy, zones@) is None,
        },
{
    let ghost all = replies.deep_view();
    let mut i: usize = 0;
    assert(all.skip(0) =~= all);
    while i < replies.len()
        invariant
            i <= replies.len(),
            all == replies.deep_view(),
            spec_route_answer(all, via_proxy, zones@) == spec_route_answer(all.skip(i as int), via_proxy, zones@),
        decreases replies.len() - i,
    {
        assert(all.skip(i as int).drop_first() =~= all.skip(i + 1));
        assert(all.skip(i as int)[0] == all[i as int]);
        match &replies[i] {
            Some(r) => {
                let body = r.as_slice();
                assert(body@ =~= r.deep_view());
                match public_ip_from_reply(body, via_proxy, zones) {
                    Ok(p) => {
                        return Some(p);
                    },
                    Err(_) => {},
                }
            },
            None => {},
        }
        i = i + 1;
    }
    assert(all.skip(i as int).len() == 0);
    None
}

/// A route reports nothing only when every service on it failed or was
/// refused; otherwise it reports the answer of the first service, in the
/// order asked, whose reply was accepted.
pub proof fn law_route_fails_only_when_every_service_fails(replies: Seq<Option<Seq<u8>>>, via_proxy: bool, zones: Seq<Seq<char>>)
    ensures
        spec_route_answer(replies, via_proxy, zones) is None <==> forall|i: int| 0 <= i < replies.len() ==> !reply_accepted(#[trigger] replies[i], via_proxy, zones),
        spec_route_answer(replies, via_proxy, zones) is Some ==> exists|i: int| 0 <= i < replies.len()
            && reply_accepted(#[trigger] replies[i], via_proxy, zones)
            && spec_route_answer(replies, via_proxy, zones) == Some(spec_public_ip(replies[i]->0, via_proxy, zones)->Ok_0)
            && forall|j: int| 0 <= j < i ==> !reply_accepted(#[trigger] replies[j], via_proxy, zones),
    decreases replies.len(),
{
    if replies.len() > 0 {
        let rest = replies.drop_first();
        law_route_fails_only_when_every_service_fails(rest, via_proxy, zones);
        assert forall|i: int| 0 < i < replies.len() implies #[trigger] replies[i] == rest[i - 1] by {}
        if reply_accepted(replies[0], via_proxy, zones) {
            assert(reply_accepted(replies[0], via_proxy, zones) && spec_route_answer(replies, via_proxy, zones)
                == Some(spec_public_ip(replies[0]->0, via_proxy, zones)->Ok_0));
        } else {
            if spec_route_answer(rest, via_proxy, zones) is Some {
                let k = choose|k: int| 0 <= k < rest.len() && reply_accepted(#[trigger] rest[k], via_proxy, zones)
                    && spec_route_answer(rest, via_proxy, zones) == Some(spec_public_ip(rest[k]->0, via_proxy, zones)->Ok_0)
                    && forall|j: int| 0 <= j < k ==> !reply_accepted(#[trigger] rest[j], via_proxy, zones);
                assert(replies[k + 1] == rest[k]);
                assert forall|j: int| 0 <= j < k + 1 implies !reply_accepted(#[trigger] replies[j], via_proxy, zones) by {
                    if j > 0 {
                        assert(replies[j] == rest[j - 1]);
                    }
                }
            } else {
                assert forall|i: int| 0 <= i < replies.len() implies !reply_accepted(#[trigger] replies[i], via_proxy, zones) by {
                    if i > 0 {
                        assert(replies[i] == rest[i - 1]);
                    }
                }
            }
        }
    }
}

/// The message when the query program itself reported failure; `stderr` is
/// what it wrote, trimmed here.
pub open spec fn query_failed_text(stderr: Seq<char>) -> Seq<char> {
    "公网 IP 查询失败："@ + trim(stderr)
}

/// The message for a failed query whose program wrote `stderr`.
pub fn query_failed_message(stderr: &str) -> (res: String)
    ensures
        res@ == query_failed_text(stderr@),
{
    let cs = str_chars(stderr);
    let (a, b) = trim_bounds(&cs, 0, cs.len());
    assert(cs@.subrange(0, cs@.len() as int) =~= cs@);
    let mut m = "公网 IP 查询失败：".to_owned();
    m.append(stderr.substring_char(a, b));
    m
}

/// The public addresses seen through the proxy and directly.
#[derive(Debug)]
pub struct NetworkInfo {
    pub proxy: Option<PublicIp>,
    pub direct: Option<PublicIp>,
    pub proxy_configured: bool,
}

/// The refusal when neither query gave an answer.
pub open spec fn no_network_text() -> Seq<char> {
    "无法获取公网 IP，请检查网络连接。"@
}

/// Combines the two queries' answers: refused when neither gave one.
pub fn network_info(proxy_configured: bool, proxy: Option<PublicIp>, direct: Option<PublicIp>) -> (res: Result<NetworkInfo, String>)
    ensures
        (proxy is None && direct is None) <==> res is Err,
        res matches Err(e) ==> e@ == no_network_text(),
        res matches Ok(info) ==> info.proxy == proxy && info.direct == direct && info.proxy_configured == proxy_configured,
{
    if proxy.is_none() && direct.is_none() {
        return Err("无法获取公网 IP，请检查网络连接。".to_owned());
    }
    Ok(NetworkInfo { proxy, direct, proxy_configured })
}

} // verus!
