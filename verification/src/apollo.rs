//! The data a local GameStream host (Sunshine/Apollo) reports on its
//! unauthenticated `serverinfo` endpoint and in its `applist` response.

use vstd::prelude::*;
use vstd::string::StringExecFns;

use crate::protocol::{GameEntry, GameId};
use crate::text::push_char;

verus! {

/// A GameStream host's `serverinfo` answer.
#[derive(Debug, Clone, PartialEq)]
pub struct ServerInfo {
    pub status_code: i32,
    pub hostname: Option<String>,
    pub appversion: String,
    pub pair_status: u8,
    pub https_port: u16,
}

impl ServerInfo {
    /// Whether this client is paired with the host (pair status 1).
    pub fn is_paired(&self) -> (r: bool)
        ensures
            r == (self.pair_status == 1),
    {
        self.pair_status == 1
    }
}

/// One `<App>` element of an `applist` response.
#[derive(Debug, Clone)]
pub struct AppXml {
    pub title: String,
    pub id: u32,
}

/// The games an `applist` response lists, in document order; artwork is not
/// part of that response, so none is set.
pub fn games_from_app_list(apps: Vec<AppXml>) -> (games: Vec<GameEntry>)
    ensures
        games@.len() == apps@.len(),
        forall|i: int| #![trigger games@[i]] 0 <= i < games@.len() ==> ({
            &&& games@[i].id == GameId(apps@[i].id)
            &&& games@[i].name@ == apps@[i].title@
            &&& games@[i].artwork_uri is None
        }),
{
    let mut games: Vec<GameEntry> = Vec::new();
    let mut i: usize = 0;
    while i < apps.len()
        invariant
            0 <= i <= apps@.len(),
            games@.len() == i,
            forall|j: int| #![trigger games@[j]] 0 <= j < i ==> ({
                &&& games@[j].id == GameId(apps@[j].id)
                &&& games@[j].name@ == apps@[j].title@
                &&& games@[j].artwork_uri is None
            }),
        decreases apps@.len() - i,
    {
        let app = &apps[i];
        games.push(GameEntry { id: GameId(app.id), name: app.title.clone(), artwork_uri: None });
        i = i + 1;
    }
    games
}

/// `n` in decimal, without leading zeros.
pub open spec fn decimal_text(n: nat) -> Seq<char>
    decreases n,
{
    if n < 10 {
        seq![(48 + n) as char]
    } else {
        decimal_text(n / 10) + seq![(48 + n % 10) as char]
    }
}

/// `n` in decimal.
pub fn decimal_u16(n: u16) -> (s: String)
    ensures
        s@ == decimal_text(n as nat),
{
    let mut digits: Vec<char> = Vec::new();
    let mut m: u16 = n;
    while m >= 10
        invariant
            decimal_text(n as nat) == decimal_text(m as nat) + digits@.reverse(),
        decreases m,
    {
        let d = m % 10;
        digits.push(((48 + d) as u8) as char);
        proof {
            assert(decimal_text(m as nat) == decimal_text((m / 10) as nat) + seq![(48 + m % 10) as char]);
            assert(digits@.reverse() =~= seq![(48 + m % 10) as char] + digits@.drop_last().reverse());
        }
        m = m / 10;
    }
    let mut s = String::new();
    push_char(&mut s, ((48 + m) as u8) as char);
    let mut i: usize = digits.len();
    assert(s@ + digits@.take(i as int).reverse() =~= decimal_text(n as nat));
    while i > 0
        invariant
            0 <= i <= digits@.len(),
            s@ + digits@.take(i as int).reverse() == decimal_text(n as nat),
        decreases i,
    {
        let c = digits[i - 1];
        proof {
            assert(digits@.take(i as int).reverse() =~= seq![c] + digits@.take(i - 1).reverse());
        }
        push_char(&mut s, c);
        i = i - 1;
        assert(s@ + digits@.take(i as int).reverse() =~= decimal_text(n as nat));
    }
    assert(digits@.take(0).reverse() =~= Seq::<char>::empty());
    assert(s@ =~= decimal_text(n as nat));
    s
}

/// The URL of a host's plain-HTTP `serverinfo` endpoint.
pub fn serverinfo_url(address: &str, http_port: u16) -> (url: String)
    ensures
        url@ == "http://"@ + address@ + ":"@ + decimal_text(http_port as nat) + "/serverinfo"@,
{
    let mut url = String::from_str("http://");
    url.append(address);
    url.append(":");
    let port = decimal_u16(http_port);
    url.append(port.as_str());
    url.append("/serverinfo");
    url
}

}
