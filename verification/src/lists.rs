//! Filter lists: the catalogue the dashboard offers, the record of
//! downloaded lists (keyed by a hash of the list id), whether a download is
//! due, and switching a list on or off.

use vstd::prelude::*;
use crate::cache::unix_now;
use crate::config::{ids_view, Config};
use crate::text::{copy_string, hex_prefix, hex_text, opt_string_view, str_eq};

verus! {

/// A filter list the dashboard offers, with how many domains its last
/// download held and whether it is enabled, where known.
#[derive(Debug, Clone)]
pub struct List {
    pub id: String,
    pub name: String,
    pub description: String,
    pub homepage: String,
    pub url: String,
    pub domains: Option<usize>,
    pub enabled: Option<bool>,
}

/// The fixed text of a list.
pub struct ListInfo {
    pub id: Seq<char>,
    pub name: Seq<char>,
    pub description: Seq<char>,
    pub homepage: Seq<char>,
    pub url: Seq<char>,
}

impl List {
    /// The fixed text of this list.
    pub open spec fn info(self) -> ListInfo {
        ListInfo {
            id: self.id@,
            name: self.name@,
            description: self.description@,
            homepage: self.homepage@,
            url: self.url@,
        }
    }
}

/// One entry of the catalogue.
pub open spec fn info(
    id: Seq<char>,
    name: Seq<char>,
    description: Seq<char>,
    homepage: Seq<char>,
    url: Seq<char>,
) -> ListInfo {
    ListInfo { id, name, description, homepage, url }
}

/// The catalogue of filter lists, in the order the dashboard shows them.
pub open spec fn catalogue() -> Seq<ListInfo> {
    seq![
        info("oisd-big"@, "OISD Big"@, "Blocks ads, trackers, malware, phishing, telemetry, mobile app ads and many nuisance domains."@, "https://oisd.nl"@, "https://big.oisd.nl"@),
        info("oisd-small"@, "OISD Small"@, "Smaller OISD variant focused on ads and trackers with fewer false positives."@, "https://oisd.nl"@, "https://small.oisd.nl"@),
        info("stevenblack"@, "StevenBlack Hosts"@, "Popular consolidated hosts file combining multiple reputable ad and tracking blocklists."@, "https://github.com/StevenBlack/hosts"@, "https://raw.githubusercontent.com/StevenBlack/hosts/master/hosts"@),
        info("hagezi-pro"@, "Hagezi Multi PRO"@, "Comprehensive protection against ads, tracking, telemetry, phishing and malware while maintaining good compatibility."@, "https://github.com/hagezi/dns-blocklists"@, "https://raw.githubusercontent.com/hagezi/dns-blocklists/main/adblock/pro.txt"@),
        info("hagezi-ultimate"@, "Hagezi Multi ULTIMATE"@, "Aggressive blocklist with maximum coverage of ads, tracking, telemetry and unwanted domains."@, "https://github.com/hagezi/dns-blocklists"@, "https://raw.githubusercontent.com/hagezi/dns-blocklists/main/adblock/ultimate.txt"@),
        info("hagezi-tif"@, "Hagezi Threat Intelligence"@, "Blocks known malware, botnet, phishing and command-and-control domains."@, "https://github.com/hagezi/dns-blocklists"@, "https://raw.githubusercontent.com/hagezi/dns-blocklists/main/adblock/tif.txt"@),
        info("adguard-dns"@, "AdGuard DNS Filter"@, "Official AdGuard DNS blocklist targeting ads, trackers and malicious domains."@, "https://github.com/AdguardTeam/AdguardSDNSFilter"@, "https://adguardteam.github.io/HostlistsRegistry/assets/filter_1.txt"@),
        info("adguard-tracking"@, "AdGuard Tracking Protection"@, "Focused on analytics, telemetry and user tracking domains."@, "https://github.com/AdguardTeam/AdguardSDNSFilter"@, "https://adguardteam.github.io/HostlistsRegistry/assets/filter_3.txt"@),
        info("easylist"@, "EasyList"@, "The most widely used community-maintained advertising filter list."@, "https://easylist.to"@, "https://easylist.to/easylist/easylist.txt"@),
        info("easyprivacy"@, "EasyPrivacy"@, "Companion list to EasyList focused on tracking and analytics domains."@, "https://easylist.to"@, "https://easylist.to/easylist/easyprivacy.txt"@),
        info("urlhaus"@, "URLHaus Malware"@, "Threat intelligence feed containing domains associated with malware distribution."@, "https://urlhaus.abuse.ch"@, "https://urlhaus.abuse.ch/downloads/hostfile/"@),
        info("phishing-army"@, "Phishing Army"@, "Community-maintained phishing domain blocklist."@, "https://phishing.army"@, "https://raw.githubusercontent.com/DandelionSprout/adfilt/master/Alternate%20versions%20Anti-Malware%20List/AntiMalwareHosts.txt"@),
        info("dandelion-malware"@, "Dandelion Sprout Anti-Malware"@, "Additional malware, scam and malicious domain protection."@, "https://github.com/DandelionSprout/adfilt"@, "https://raw.githubusercontent.com/DandelionSprout/adfilt/master/Alternate%20versions%20Anti-Malware%20List/AntiMalwareDomains.txt"@),
        info("hagezi-light"@, "Hagezi Multi LIGHT"@, "Basic protection against ads, tracking and metrics with almost no false positives."@, "https://github.com/hagezi/dns-blocklists"@, "https://raw.githubusercontent.com/hagezi/dns-blocklists/main/adblock/light.txt"@),
        info("hagezi-normal"@, "Hagezi Multi NORMAL"@, "All-round protection against ads, tracking, metrics, phishing and malware."@, "https://github.com/hagezi/dns-blocklists"@, "https://raw.githubusercontent.com/hagezi/dns-blocklists/main/adblock/multi.txt"@),
        info("hagezi-pro-plus"@, "Hagezi Multi PRO++"@, "Maximum protection for experienced users; may block some harmless domains."@, "https://github.com/hagezi/dns-blocklists"@, "https://raw.githubusercontent.com/hagezi/dns-blocklists/main/adblock/pro.plus.txt"@),
        info("hagezi-windows"@, "Hagezi Native Tracker Windows/Office"@, "Blocks the native telemetry and tracking domains of Windows and Office."@, "https://github.com/hagezi/dns-blocklists"@, "https://raw.githubusercontent.com/hagezi/dns-blocklists/main/adblock/native.winoffice.txt"@),
        info("peter-lowe"@, "Peter Lowe's Ad and Tracking Server List"@, "Long-running hand-maintained list of ad and tracking servers."@, "https://pgl.yoyo.org/adservers/"@, "https://pgl.yoyo.org/adservers/serverlist.php?hostformat=adblockplus&showintro=0&mimetype=plaintext"@),
        info("1hosts-lite"@, "1Hosts Lite"@, "Balanced list against ads, trackers and malware aimed at avoiding breakage."@, "https://github.com/badmojr/1Hosts"@, "https://o0.pages.dev/Lite/adblock.txt"@),
        info("adaway"@, "AdAway Default Blocklist"@, "Mobile-focused hosts file blocking ad servers used by apps."@, "https://adaway.org"@, "https://adaway.org/hosts.txt"@),
        info("dan-pollock"@, "Dan Pollock's Hosts"@, "Hosts file blocking ads, banners, tracking cookies and other nuisances."@, "https://someonewhocares.org/hosts/"@, "https://someonewhocares.org/hosts/zero/hosts"@),
        info("nocoin"@, "NoCoin Filter List"@, "Blocks in-browser cryptocurrency miners."@, "https://github.com/hoshsadiq/adblock-nocoin-list"@, "https://raw.githubusercontent.com/hoshsadiq/adblock-nocoin-list/master/hosts.txt"@),
    ]
}

/// Law: the dashboard offers more than twenty filter lists to choose from.
pub proof fn law_catalogue_offers_more_than_twenty()
    ensures
        catalogue().len() > 20,
{
}

/// A catalogue entry with nothing known of its downloads or state.
fn make_list(id: &str, name: &str, description: &str, homepage: &str, url: &str) -> (l: List)
    ensures
        l.info() == info(id@, name@, description@, homepage@, url@),
        l.domains is None,
        l.enabled is None,
{
    List {
        id: id.to_owned(),
        name: name.to_owned(),
        description: description.to_owned(),
        homepage: homepage.to_owned(),
        url: url.to_owned(),
        domains: None,
        enabled: None,
    }
}

/// The catalogue of filter lists, with nothing known of downloads or state.
#[verifier::rlimit(100)]
pub fn default_lists() -> (v: Vec<List>)
    ensures
        v@.len() == catalogue().len(),
        forall|i: int|
            0 <= i < v@.len() ==> (#[trigger] v@[i]).info() == catalogue()[i] && v@[i].domains
                is None && v@[i].enabled is None,
{
    let mut v: Vec<List> = Vec::new();
    v.push(make_list("oisd-big", "OISD Big", "Blocks ads, trackers, malware, phishing, telemetry, mobile app ads and many nuisance domains.", "https://oisd.nl", "https://big.oisd.nl"));
    v.push(make_list("oisd-small", "OISD Small", "Smaller OISD variant focused on ads and trackers with fewer false positives.", "https://oisd.nl", "https://small.oisd.nl"));
    v.push(make_list("stevenblack", "StevenBlack Hosts", "Popular consolidated hosts file combining multiple reputable ad and tracking blocklists.", "https://github.com/StevenBlack/hosts", "https://raw.githubusercontent.com/StevenBlack/hosts/master/hosts"));
    v.push(make_list("hagezi-pro", "Hagezi Multi PRO", "Comprehensive protection against ads, tracking, telemetry, phishing and malware while maintaining good compatibility.", "https://github.com/hagezi/dns-blocklists", "https://raw.githubusercontent.com/hagezi/dns-blocklists/main/adblock/pro.txt"));
    v.push(make_list("hagezi-ultimate", "Hagezi Multi ULTIMATE", "Aggressive blocklist with maximum coverage of ads, tracking, telemetry and unwanted domains.", "https://github.com/hagezi/dns-blocklists", "https://raw.githubusercontent.com/hagezi/dns-blocklists/main/adblock/ultimate.txt"));
    v.push(make_list("hagezi-tif", "Hagezi Threat Intelligence", "Blocks known malware, botnet, phishing and command-and-control domains.", "https://github.com/hagezi/dns-blocklists", "https://raw.githubusercontent.com/hagezi/dns-blocklists/main/adblock/tif.txt"));
    v.push(make_list("adguard-dns", "AdGuard DNS Filter", "Official AdGuard DNS blocklist targeting ads, trackers and malicious domains.", "https://github.com/AdguardTeam/AdguardSDNSFilter", "https://adguardteam.github.io/HostlistsRegistry/assets/filter_1.txt"));
    v.push(make_list("adguard-tracking", "AdGuard Tracking Protection", "Focused on analytics, telemetry and user tracking domains.", "https://github.com/AdguardTeam/AdguardSDNSFilter", "https://adguardteam.github.io/HostlistsRegistry/assets/filter_3.txt"));
    v.push(make_list("easylist", "EasyList", "The most widely used community-maintained advertising filter list.", "https://easylist.to", "https://easylist.to/easylist/easylist.txt"));
    v.push(make_list("easyprivacy", "EasyPrivacy", "Companion list to EasyList focused on tracking and analytics domains.", "https://easylist.to", "https://easylist.to/easylist/easyprivacy.txt"));
    v.push(make_list("urlhaus", "URLHaus Malware", "Threat intelligence feed containing domains associated with malware distribution.", "https://urlhaus.abuse.ch", "https://urlhaus.abuse.ch/downloads/hostfile/"));
    v.push(make_list("phishing-army", "Phishing Army", "Community-maintained phishing domain blocklist.", "https://phishing.army", "https://raw.githubusercontent.com/DandelionSprout/adfilt/master/Alternate%20versions%20Anti-Malware%20List/AntiMalwareHosts.txt"));
    v.push(make_list("dandelion-malware", "Dandelion Sprout Anti-Malware", "Additional malware, scam and malicious domain protection.", "https://github.com/DandelionSprout/adfilt", "https://raw.githubusercontent.com/DandelionSprout/adfilt/master/Alternate%20versions%20Anti-Malware%20List/AntiMalwareDomains.txt"));
    v.push(make_list("hagezi-light", "Hagezi Multi LIGHT", "Basic protection against ads, tracking and metrics with almost no false positives.", "https://github.com/hagezi/dns-blocklists", "https://raw.githubusercontent.com/hagezi/dns-blocklists/main/adblock/light.txt"));
    v.push(make_list("hagezi-normal", "Hagezi Multi NORMAL", "All-round protection against ads, tracking, metrics, phishing and malware.", "https://github.com/hagezi/dns-blocklists", "https://raw.githubusercontent.com/hagezi/dns-blocklists/main/adblock/multi.txt"));
    v.push(make_list("hagezi-pro-plus", "Hagezi Multi PRO++", "Maximum protection for experienced users; may block some harmless domains.", "https://github.com/hagezi/dns-blocklists", "https://raw.githubusercontent.com/hagezi/dns-blocklists/main/adblock/pro.plus.txt"));
    v.push(make_list("hagezi-windows", "Hagezi Native Tracker Windows/Office", "Blocks the native telemetry and tracking domains of Windows and Office.", "https://github.com/hagezi/dns-blocklists", "https://raw.githubusercontent.com/hagezi/dns-blocklists/main/adblock/native.winoffice.txt"));
    v.push(make_list("peter-lowe", "Peter Lowe's Ad and Tracking Server List", "Long-running hand-maintained list of ad and tracking servers.", "https://pgl.yoyo.org/adservers/", "https://pgl.yoyo.org/adservers/serverlist.php?hostformat=adblockplus&showintro=0&mimetype=plaintext"));
    v.push(make_list("1hosts-lite", "1Hosts Lite", "Balanced list against ads, trackers and malware aimed at avoiding breakage.", "https://github.com/badmojr/1Hosts", "https://o0.pages.dev/Lite/adblock.txt"));
    v.push(make_list("adaway", "AdAway Default Blocklist", "Mobile-focused hosts file blocking ad servers used by apps.", "https://adaway.org", "https://adaway.org/hosts.txt"));
    v.push(make_list("dan-pollock", "Dan Pollock's Hosts", "Hosts file blocking ads, banners, tracking cookies and other nuisances.", "https://someonewhocares.org/hosts/", "https://someonewhocares.org/hosts/zero/hosts"));
    v.push(make_list("nocoin", "NoCoin Filter List", "Blocks in-browser cryptocurrency miners.", "https://github.com/hoshsadiq/adblock-nocoin-list", "https://raw.githubusercontent.com/hoshsadiq/adblock-nocoin-list/master/hosts.txt"));
    v
}

/// Whether `id` is the id of a list of the catalogue.
pub open spec fn known_list(id: Seq<char>) -> bool {
    exists|i: int| 0 <= i < catalogue().len() && (#[trigger] catalogue()[i]).id == id
}

/// Whether `id` names a list of the catalogue.
pub fn is_known_list(id: &str) -> (b: bool)
    ensures
        b == known_list(id@),
{
    let lists = default_lists();
    let mut i: usize = 0;
    while i < lists.len()
        invariant
            i <= lists@.len(),
            lists@.len() == catalogue().len(),
            forall|k: int|
                0 <= k < lists@.len() ==> (#[trigger] lists@[k]).info() == catalogue()[k],
            forall|k: int| 0 <= k < i ==> (#[trigger] catalogue()[k]).id != id@,
        decreases lists.len() - i,
    {
        assert(lists@[i as int].info() == catalogue()[i as int]);
        if str_eq(lists[i].id.as_str(), id) {
            assert(catalogue()[i as int].id == id@);
            return true;
        }
        i = i + 1;
    }
    false
}

/// The ids of the catalogue's lists, in order.
pub fn list_ids() -> (ids: Vec<String>)
    ensures
        ids_view(ids@) == catalogue().map_values(|l: ListInfo| l.id),
{
    let lists = default_lists();
    let mut ids: Vec<String> = Vec::new();
    let mut i: usize = 0;
    while i < lists.len()
        invariant
            i <= lists@.len(),
            lists@.len() == catalogue().len(),
            forall|k: int|
                0 <= k < lists@.len() ==> (#[trigger] lists@[k]).info() == catalogue()[k],
            ids_view(ids@) == catalogue().take(i as int).map_values(|l: ListInfo| l.id),
        decreases lists.len() - i,
    {
        assert(lists@[i as int].info() == catalogue()[i as int]);
        let ghost before = ids@;
        let id = copy_string(&lists[i].id);
        ids.push(id);
        proof {
            assert(catalogue().take(i + 1) =~= catalogue().take(i as int).push(
                catalogue()[i as int],
            ));
            assert(ids_view(ids@) =~= ids_view(before).push(id@));
            assert(catalogue().take(i + 1).map_values(|l: ListInfo| l.id) =~= catalogue().take(
                i as int,
            ).map_values(|l: ListInfo| l.id).push(catalogue()[i as int].id));
        }
        i = i + 1;
    }
    assert(catalogue().take(catalogue().len() as int) =~= catalogue());
    ids
}

/// The SHA-256 digest of the UTF-8 bytes of `s`.
pub uninterp spec fn sha256_of_text(s: Seq<char>) -> Seq<u8>;

/// The SHA-256 digest of the UTF-8 bytes of `s` (`Sha256::digest`), 32 bytes long.
#[verifier::external_body]
fn sha256_text(s: &str) -> (d: Vec<u8>)
    ensures
        d@ == sha256_of_text(s@),
        d@.len() == 32,
{
    <sha2::Sha256 as sha2::Digest>::digest(s.as_bytes()).to_vec()
}

/// The key under which a list's downloads are recorded: the first eight
/// bytes of the SHA-256 digest of its id, in lower-case hexadecimal.
pub open spec fn id_key(id: Seq<char>) -> Seq<char> {
    hex_text(sha256_of_text(id).take(8))
}

/// The key under which a list's downloads are recorded.
pub fn id_hash(id: &str) -> (k: String)
    ensures
        k@ == id_key(id@),
{
    let digest = sha256_text(id);
    hex_prefix(digest.as_slice(), 8)
}

/// What is recorded of a list's last download: when it was fetched (Unix
/// seconds), the entity tag the server gave, and how many domains it held.
#[derive(Debug, Clone)]
pub struct ListEntry {
    pub id: String,
    pub last_fetched: i64,
    pub etag: Option<String>,
    pub domains: usize,
}

/// The content of a `ListEntry`.
pub struct EntryView {
    pub id: Seq<char>,
    pub last_fetched: i64,
    pub etag: Option<Seq<char>>,
    pub domains: usize,
}

impl View for ListEntry {
    type V = EntryView;

    open spec fn view(&self) -> EntryView {
        EntryView {
            id: self.id@,
            last_fetched: self.last_fetched,
            etag: opt_string_view(self.etag),
            domains: self.domains,
        }
    }
}

/// A recorded download under its key.
#[derive(Debug, Clone)]
pub struct CachedList {
    pub key: String,
    pub entry: ListEntry,
}

impl View for CachedList {
    type V = (Seq<char>, EntryView);

    open spec fn view(&self) -> (Seq<char>, EntryView) {
        (self.key@, self.entry@)
    }
}

/// The record of downloaded lists.
#[derive(Debug, Clone)]
pub struct CacheFile {
    pub lists: Vec<CachedList>,
}

/// The recorded downloads, in order.
pub open spec fn records(c: CacheFile) -> Seq<(Seq<char>, EntryView)> {
    c.lists@.map_values(|x: CachedList| x@)
}

/// The index of the first record under key `k`.
pub open spec fn find_key(s: Seq<(Seq<char>, EntryView)>, k: Seq<char>) -> Option<int>
    decreases s.len(),
{
    if s.len() == 0 {
        None
    } else {
        match find_key(s.drop_last(), k) {
            Some(i) => Some(i),
            None => if s.last().0 == k {
                Some(s.len() - 1)
            } else {
                None
            },
        }
    }
}

/// The record under key `k`, if any.
pub open spec fn entry_for(s: Seq<(Seq<char>, EntryView)>, k: Seq<char>) -> Option<EntryView> {
    match find_key(s, k) {
        Some(i) => Some(s[i].1),
        None => None,
    }
}

/// The records after `e` is recorded under `k`: it replaces the first
/// record under `k`, or is added at the end.
pub open spec fn inserted(s: Seq<(Seq<char>, EntryView)>, k: Seq<char>, e: EntryView) -> Seq<
    (Seq<char>, EntryView),
> {
    match find_key(s, k) {
        Some(i) => s.update(i, (k, e)),
        None => s.push((k, e)),
    }
}

/// `find_key` gives the first index holding the key, or none where no index does.
pub proof fn lemma_find_key(s: Seq<(Seq<char>, EntryView)>, k: Seq<char>)
    ensures
        match find_key(s, k) {
            Some(i) => 0 <= i < s.len() && s[i].0 == k && forall|j: int|
                0 <= j < i ==> (#[trigger] s[j]).0 != k,
            None => forall|j: int| 0 <= j < s.len() ==> (#[trigger] s[j]).0 != k,
        },
    decreases s.len(),
{
    if s.len() > 0 {
        lemma_find_key(s.drop_last(), k);
        assert forall|j: int| 0 <= j < s.len() - 1 implies s.drop_last()[j] == s[j] by {}
    }
}

/// Sequences with the same keys at the same places find keys at the same places.
pub proof fn lemma_find_same_keys(s: Seq<(Seq<char>, EntryView)>, t: Seq<(Seq<char>, EntryView)>, k: Seq<char>)
    requires
        s.len() == t.len(),
        forall|j: int| 0 <= j < s.len() ==> (#[trigger] s[j]).0 == t[j].0,
    ensures
        find_key(s, k) == find_key(t, k),
    decreases s.len(),
{
    if s.len() > 0 {
        assert forall|j: int| 0 <= j < s.len() - 1 implies (#[trigger] s.drop_last()[j]).0
            == t.drop_last()[j].0 by {
            assert(s.drop_last()[j] == s[j]);
            assert(t.drop_last()[j] == t[j]);
        }
        lemma_find_same_keys(s.drop_last(), t.drop_last(), k);
    }
}

/// Law: after a download is recorded under a key, the record under that key
/// is the new one, and the record under every other key is unchanged.
pub proof fn law_insert_then_get(
    s: Seq<(Seq<char>, EntryView)>,
    k: Seq<char>,
    e: EntryView,
    k2: Seq<char>,
)
    ensures
        entry_for(inserted(s, k, e), k2) == if k2 == k {
            Some(e)
        } else {
            entry_for(s, k2)
        },
{
    lemma_find_key(s, k);
    lemma_find_key(s, k2);
    match find_key(s, k) {
        Some(i) => {
            let t = s.update(i, (k, e));
            lemma_find_same_keys(t, s, k2);
            if k2 == k {
                assert(t[i] == (k, e));
            }
        },
        None => {
            let t = s.push((k, e));
            assert(t.drop_last() =~= s);
        },
    }
}

impl CacheFile {
    /// An empty record.
    pub fn new() -> (c: CacheFile)
        ensures
            records(c) == Seq::<(Seq<char>, EntryView)>::empty(),
    {
        let c = CacheFile { lists: Vec::new() };
        assert(records(c) =~= Seq::<(Seq<char>, EntryView)>::empty());
        c
    }

    /// The position of the first record under `key`.
    fn position(&self, key: &str) -> (r: Option<usize>)
        ensures
            match r {
                Some(i) => find_key(records(*self), key@) == Some(i as int),
                None => find_key(records(*self), key@) is None,
            },
    {
        let ghost s = records(*self);
        proof {
            lemma_find_key(s, key@);
        }
        let mut i: usize = 0;
        while i < self.lists.len()
            invariant
                s == records(*self),
                s.len() == self.lists@.len(),
                i <= self.lists@.len(),
                forall|j: int| 0 <= j < i ==> (#[trigger] s[j]).0 != key@,
                match find_key(s, key@) {
                    Some(f) => 0 <= f < s.len() && s[f].0 == key@ && forall|j: int|
                        0 <= j < f ==> (#[trigger] s[j]).0 != key@,
                    None => forall|j: int| 0 <= j < s.len() ==> (#[trigger] s[j]).0 != key@,
                },
            decreases self.lists.len() - i,
        {
            assert(s[i as int] == self.lists@[i as int]@);
            if str_eq(self.lists[i].key.as_str(), key) {
                assert(s[i as int].0 == key@);
                return Some(i);
            }
            i = i + 1;
        }
        None
    }

    /// The record of the list `id`'s last download, if any.
    pub fn get_by_id(&self, id: &str) -> (r: Option<&ListEntry>)
        ensures
            match entry_for(records(*self), id_key(id@)) {
                Some(e) => r matches Some(x) && x@ == e,
                None => r is None,
            },
    {
        let key = id_hash(id);
        proof {
            lemma_find_key(records(*self), key@);
        }
        match self.position(key.as_str()) {
            Some(i) => {
                assert(records(*self)[i as int] == self.lists@[i as int]@);
                Some(&self.lists[i].entry)
            },
            None => None,
        }
    }

    /// Whether the list `id` was downloaded less than `max_age` seconds before `now`.
    pub fn is_fresh_at(&self, id: &str, max_age: i64, now: i64) -> (b: bool)
        ensures
            b == match entry_for(records(*self), id_key(id@)) {
                Some(e) => now - e.last_fetched < max_age,
                None => false,
            },
    {
        match self.get_by_id(id) {
            Some(e) => (now as i128) - (e.last_fetched as i128) < max_age as i128,
            None => false,
        }
    }

    /// Whether the list `id` was downloaded less than `max_age` seconds ago;
    /// no list is fresh where the clock cannot be read.
    pub fn is_fresh(&self, id: &str, max_age: i64) -> (b: bool)
        ensures
            b ==> entry_for(records(*self), id_key(id@)) is Some,
    {
        match unix_now() {
            Some(now) => self.is_fresh_at(id, max_age, now),
            None => false,
        }
    }

    /// Records a download of the list `id` made at `now`.
    pub fn insert_at(&mut self, id: &str, etag: Option<String>, domains: usize, now: i64)
        ensures
            records(*final(self)) == inserted(
                records(*old(self)),
                id_key(id@),
                EntryView { id: id@, last_fetched: now, etag: opt_string_view(etag), domains },
            ),
    {
        let key = id_hash(id);
        let entry = ListEntry { id: id.to_owned(), last_fetched: now, etag, domains };
        let ghost s = records(*self);
        let ghost e = entry@;
        proof {
            lemma_find_key(s, key@);
        }
        match self.position(key.as_str()) {
            Some(i) => {
                self.lists.set(i, CachedList { key, entry });
                assert(records(*self) =~= s.update(i as int, (id_key(id@), e)));
            },
            None => {
                self.lists.push(CachedList { key, entry });
                assert(records(*self) =~= s.push((id_key(id@), e)));
            },
        }
    }

    /// Records a download of the list `id` made now (at the epoch, so never
    /// fresh, where the clock cannot be read). Afterwards the record under its
    /// key holds the new download, and every other record is unchanged.
    pub fn insert(&mut self, id: &str, etag: Option<String>, domains: usize)
        ensures
            entry_for(records(*final(self)), id_key(id@)) matches Some(e) && e.id == id@ && e.etag
                == opt_string_view(etag) && e.domains == domains,
            forall|k: Seq<char>|
                k != id_key(id@) ==> #[trigger] entry_for(records(*final(self)), k) == entry_for(
                    records(*old(self)),
                    k,
                ),
    {
        let now = match unix_now() {
            Some(t) => t,
            None => 0,
        };
        let ghost e = EntryView { id: id@, last_fetched: now, etag: opt_string_view(etag), domains };
        self.insert_at(id, etag, domains, now);
        proof {
            law_insert_then_get(records(*old(self)), id_key(id@), e, id_key(id@));
            assert forall|k: Seq<char>| k != id_key(id@) implies #[trigger] entry_for(
                records(*self),
                k,
            ) == entry_for(records(*old(self)), k) by {
                law_insert_then_get(records(*old(self)), id_key(id@), e, k);
            }
        }
    }
}

/// How long a download stays fresh: a day.
pub const LIST_MAX_AGE_SECS: i64 = 86400;

/// How a list is to be obtained.
#[derive(Debug)]
pub enum FetchPlan {
    /// Read the copy on disk.
    UseCached,
    /// Download it, sending the entity tag of the last download if there is one.
    Download { etag: Option<String> },
}

/// How to obtain the list `id` at time `now`: from disk when its last
/// download is less than a day old and the copy is on disk, otherwise by
/// downloading it again.
pub fn plan_fetch(cache: &CacheFile, id: &str, file_exists: bool, now: i64) -> (p: FetchPlan)
    ensures
        match entry_for(records(*cache), id_key(id@)) {
            Some(e) => if file_exists && now - e.last_fetched < LIST_MAX_AGE_SECS {
                p is UseCached
            } else {
                p matches FetchPlan::Download { etag } && opt_string_view(etag) == e.etag
            },
            None => p matches FetchPlan::Download { etag } && etag is None,
        },
{
    let fresh = cache.is_fresh_at(id, LIST_MAX_AGE_SECS, now);
    if fresh && file_exists {
        return FetchPlan::UseCached;
    }
    match cache.get_by_id(id) {
        Some(e) => {
            let etag = match &e.etag {
                Some(t) => Some(copy_string(t)),
                None => None,
            };
            FetchPlan::Download { etag }
        },
        None => FetchPlan::Download { etag: None },
    }
}

/// The download address of the catalogue list `id`.
pub fn list_url(id: &str) -> (r: Option<String>)
    ensures
        match r {
            Some(u) => exists|i: int|
                0 <= i < catalogue().len() && (#[trigger] catalogue()[i]).id == id@
                    && catalogue()[i].url == u@,
            None => !known_list(id@),
        },
{
    let lists = default_lists();
    let mut i: usize = 0;
    while i < lists.len()
        invariant
            i <= lists@.len(),
            lists@.len() == catalogue().len(),
            forall|k: int|
                0 <= k < lists@.len() ==> (#[trigger] lists@[k]).info() == catalogue()[k],
            forall|k: int| 0 <= k < i ==> (#[trigger] catalogue()[k]).id != id@,
        decreases lists.len() - i,
    {
        assert(lists@[i as int].info() == catalogue()[i as int]);
        if str_eq(lists[i].id.as_str(), id) {
            return Some(copy_string(&lists[i].url));
        }
        i = i + 1;
    }
    None
}

/// Whether `v` holds `id`.
pub fn contains_id(v: &Vec<String>, id: &str) -> (b: bool)
    ensures
        b == ids_view(v@).contains(id@),
{
    let mut i: usize = 0;
    while i < v.len()
        invariant
            i <= v@.len(),
            forall|k: int| 0 <= k < i ==> (#[trigger] v@[k])@ != id@,
        decreases v.len() - i,
    {
        if str_eq(v[i].as_str(), id) {
            assert(ids_view(v@)[i as int] == id@);
            return true;
        }
        i = i + 1;
    }
    assert forall|k: int| 0 <= k < ids_view(v@).len() implies (#[trigger] ids_view(v@)[k]) != id@ by {
        assert(ids_view(v@)[k] == v@[k]@);
    }
    false
}

/// The catalogue as the dashboard shows it: each list with the domain count
/// of its last download, where one is recorded, and whether it is enabled.
pub fn lists_with_status(cache: &CacheFile, enabled: &Vec<String>) -> (v: Vec<List>)
    ensures
        v@.len() == catalogue().len(),
        forall|i: int|
            0 <= i < v@.len() ==> {
                &&& (#[trigger] v@[i]).info() == catalogue()[i]
                &&& v@[i].domains == match entry_for(records(*cache), id_key(catalogue()[i].id)) {
                    Some(e) => Some(e.domains),
                    None => None::<usize>,
                }
                &&& v@[i].enabled == Some(ids_view(enabled@).contains(catalogue()[i].id))
            },
{
    let lists = default_lists();
    let mut out: Vec<List> = Vec::new();
    let mut i: usize = 0;
    while i < lists.len()
        invariant
            i <= lists@.len(),
            lists@.len() == catalogue().len(),
            forall|k: int|
                0 <= k < lists@.len() ==> (#[trigger] lists@[k]).info() == catalogue()[k],
            out@.len() == i,
            forall|k: int|
                0 <= k < i ==> {
                    &&& (#[trigger] out@[k]).info() == catalogue()[k]
                    &&& out@[k].domains == match entry_for(
                        records(*cache),
                        id_key(catalogue()[k].id),
                    ) {
                        Some(e) => Some(e.domains),
                        None => None::<usize>,
                    }
                    &&& out@[k].enabled == Some(ids_view(enabled@).contains(catalogue()[k].id))
                },
        decreases lists.len() - i,
    {
        assert(lists@[i as int].info() == catalogue()[i as int]);
        let l = &lists[i];
        let domains = match cache.get_by_id(l.id.as_str()) {
            Some(e) => Some(e.domains),
            None => None,
        };
        let on = contains_id(enabled, l.id.as_str());
        let item = List {
            id: copy_string(&l.id),
            name: copy_string(&l.name),
            description: copy_string(&l.description),
            homepage: copy_string(&l.homepage),
            url: copy_string(&l.url),
            domains,
            enabled: Some(on),
        };
        out.push(item);
        i = i + 1;
    }
    out
}

/// The request to switch a list on or off.
#[derive(Debug, Clone)]
pub struct ToggleListBody {
    pub list_id: String,
}

/// Why a list could not be switched.
#[derive(Debug, Clone, Copy, PartialEq, Eq, Structural)]
pub enum ListError {
    /// The id names no list of the catalogue.
    UnknownList,
}

impl ListError {
    /// The message shown to the user.
    pub fn message(&self) -> (s: &'static str)
        ensures
            s@ == "Can't toggle a list that doesn't exist"@,
    {
        "Can't toggle a list that doesn't exist"
    }
}

/// `v` without any occurrence of `id`.
pub open spec fn remove_all(v: Seq<Seq<char>>, id: Seq<char>) -> Seq<Seq<char>>
    decreases v.len(),
{
    if v.len() == 0 {
        v
    } else {
        let rest = remove_all(v.drop_last(), id);
        if v.last() == id {
            rest
        } else {
            rest.push(v.last())
        }
    }
}

/// The enabled lists after `id` is switched: removed where enabled, added at the end otherwise.
pub open spec fn toggled(v: Seq<Seq<char>>, id: Seq<char>) -> Seq<Seq<char>> {
    if v.contains(id) {
        remove_all(v, id)
    } else {
        v.push(id)
    }
}

/// What a sequence holds after a push.
pub proof fn lemma_push_contains(s: Seq<Seq<char>>, a: Seq<char>, x: Seq<char>)
    ensures
        s.push(a).contains(x) <==> (s.contains(x) || a == x),
{
    if s.push(a).contains(x) {
        let j = choose|j: int| 0 <= j < s.push(a).len() && s.push(a)[j] == x;
        if j < s.len() {
            assert(s[j] == x);
        }
    }
    if s.contains(x) {
        let j = choose|j: int| 0 <= j < s.len() && s[j] == x;
        assert(s.push(a)[j] == x);
    }
    if a == x {
        assert(s.push(a)[s.len() as int] == x);
    }
}

/// What `remove_all` keeps: everything but `id`.
pub proof fn lemma_remove_all(v: Seq<Seq<char>>, id: Seq<char>)
    ensures
        forall|x: Seq<char>| #[trigger] remove_all(v, id).contains(x) <==> (v.contains(x) && x != id),
        !v.contains(id) ==> remove_all(v, id) == v,
    decreases v.len(),
{
    if v.len() > 0 {
        let p = v.drop_last();
        let l = v.last();
        lemma_remove_all(p, id);
        assert(v =~= p.push(l));
        let rp = remove_all(p, id);
        assert forall|x: Seq<char>| #[trigger] remove_all(v, id).contains(x) <==> (v.contains(x)
            && x != id) by {
            lemma_push_contains(p, l, x);
            lemma_push_contains(rp, l, x);
            assert(rp.contains(x) <==> (p.contains(x) && x != id));
        }
        if !v.contains(id) {
            lemma_push_contains(p, l, id);
            assert(rp == p);
        }
    }
}

/// Law: switching a list twice leaves the same lists enabled; where it was
/// off, the enabled lists are exactly as before.
pub proof fn law_toggle_twice(v: Seq<Seq<char>>, id: Seq<char>)
    ensures
        forall|x: Seq<char>| #[trigger] toggled(toggled(v, id), id).contains(x) <==> v.contains(x),
        !v.contains(id) ==> toggled(toggled(v, id), id) == v,
{
    lemma_remove_all(v, id);
    if v.contains(id) {
        let t = remove_all(v, id);
        assert(!t.contains(id));
        assert(t.push(id).contains(id)) by {
            assert(t.push(id)[t.len() as int] == id);
        }
        assert forall|x: Seq<char>| #[trigger] toggled(toggled(v, id), id).contains(x) <==> v.contains(x) by {
            assert(toggled(toggled(v, id), id) == t.push(id));
            if t.push(id).contains(x) && x != id {
                let j = choose|j: int| 0 <= j < t.len() + 1 && t.push(id)[j] == x;
                assert(t[j] == x);
            }
            if t.contains(x) {
                let j = choose|j: int| 0 <= j < t.len() && t[j] == x;
                assert(t.push(id)[j] == x);
            }
        }
    } else {
        let t = v.push(id);
        assert(t.contains(id)) by {
            assert(t[v.len() as int] == id);
        }
        assert(t.drop_last() =~= v);
        assert(remove_all(t, id) == remove_all(v, id));
    }
}

/// Switches the list named by `body` on or off in the configuration; an
/// id that names no catalogue list is refused and nothing changes.
pub fn toggle_list(config: &mut Config, body: ToggleListBody) -> (r: Result<(), ListError>)
    ensures
        known_list(body.list_id@) ==> r is Ok && ids_view(final(config).blocklists@) == toggled(
            ids_view(old(config).blocklists@),
            body.list_id@,
        ),
        !known_list(body.list_id@) ==> r == Err::<(), ListError>(ListError::UnknownList)
            && final(config).blocklists == old(config).blocklists,
        final(config).upstreams == old(config).upstreams,
        final(config).rules == old(config).rules,
        final(config).doh == old(config).doh,
        final(config).dashboard == old(config).dashboard,
        final(config).rewrites == old(config).rewrites,
        final(config).dnssec == old(config).dnssec,
{
    if !is_known_list(body.list_id.as_str()) {
        return Err(ListError::UnknownList);
    }
    let id = body.list_id;
    if contains_id(&config.blocklists, id.as_str()) {
        let ghost v = ids_view(config.blocklists@);
        let mut kept: Vec<String> = Vec::new();
        let mut i: usize = 0;
        while i < config.blocklists.len()
            invariant
                i <= config.blocklists@.len(),
                v == ids_view(config.blocklists@),
                ids_view(kept@) == remove_all(v.take(i as int), id@),
            decreases config.blocklists.len() - i,
        {
            proof {
                assert(v.take(i + 1).drop_last() =~= v.take(i as int));
                assert(v.take(i + 1).last() == config.blocklists@[i as int]@);
            }
            if !str_eq(config.blocklists[i].as_str(), id.as_str()) {
                let ghost before = kept@;
                let s = copy_string(&config.blocklists[i]);
                kept.push(s);
                assert(ids_view(kept@) =~= ids_view(before).push(s@));
            }
            i = i + 1;
        }
        assert(v.take(v.len() as int) =~= v);
        config.blocklists = kept;
    } else {
        let ghost before = config.blocklists@;
        let ghost idv = id@;
        config.blocklists.push(id);
        assert(ids_view(config.blocklists@) =~= ids_view(before).push(idv));
    }
    Ok(())
}

} // verus!
