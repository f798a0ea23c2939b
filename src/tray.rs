//! The tray's state: connection status, the targets to choose from, the
//! settings, and the selected target. Each change is one call on `&mut self`;
//! commands are built from the state, run elsewhere, and their outcome is
//! handed back to the state.
use vstd::prelude::*;
use crate::parse::{pairs, view_pair};
use crate::text::{contains, find, same, strs};
use crate::vpn;
use crate::vpn::{DEFAULT_COUNTRY, Outcome, disconnected_status, flip_arg, lower_of, setting_args, slug, status_of};

verus! {

pub type Pairs = Seq<(Seq<char>, Seq<char>)>;

/// The views of an optional sequence of string pairs.
pub open spec fn opt_pairs(o: Option<Vec<(String, String)>>) -> Option<Pairs> {
    match o {
        Some(v) => Some(pairs(v@)),
        None => None,
    }
}

/// The views of an optional sequence of strings.
pub open spec fn opt_strs(o: Option<Vec<String>>) -> Option<Seq<Seq<char>>> {
    match o {
        Some(v) => Some(strs(v@)),
        None => None,
    }
}

/// A status listing reports a connection: some entry whose key mentions
/// "Status" has the value "Connected".
pub open spec fn connected_in(d: Pairs) -> bool {
    exists|i: int| 0 <= i < d.len() && contains(d[i].0, "Status"@) && d[i].1 == "Connected"@
}

/// The connectivity that a status query's result shows; none when the daemon
/// could not be asked.
pub open spec fn connected_of(status: Option<Pairs>) -> bool {
    match status {
        Some(d) => connected_in(d),
        None => false,
    }
}

/// Whether a status listing reports a connection.
pub fn is_connected(status: &Option<Vec<(String, String)>>) -> (r: bool)
    ensures
        r == connected_of(opt_pairs(*status)),
{
    match status {
        None => false,
        Some(d) => {
            let mut i: usize = 0;
            while i < d.len()
                invariant
                    opt_pairs(*status) == Some(pairs(d@)),
                    i <= d.len(),
                    forall|j: int|
                        0 <= j < i ==> !(contains(#[trigger] pairs(d@)[j].0, "Status"@)
                            && pairs(d@)[j].1 == "Connected"@),
                decreases d.len() - i,
            {
                let (key, value) = &d[i];
                if find(key.as_str(), "Status") && same(value.as_str(), "Connected") {
                    assert(pairs(d@)[i as int] == view_pair(d@[i as int]));
                    assert(pairs(d@).len() == d@.len());
                    return true;
                }
                assert(pairs(d@)[i as int] == view_pair(d@[i as int]));
                i = i + 1;
            }
            false
        },
    }
}

/// `k` is the first entry of `d` keyed "Country".
pub open spec fn is_first_country(d: Pairs, k: int) -> bool {
    0 <= k < d.len() && d[k].0 == "Country"@ && forall|j: int| 0 <= j < k ==> d[j].0 != "Country"@
}

/// `p` is the first position of `v` in `cs`.
pub open spec fn is_first_pos(cs: Seq<Seq<char>>, v: Seq<char>, p: int) -> bool {
    0 <= p < cs.len() && cs[p] == v && forall|j: int| 0 <= j < p ==> cs[j] != v
}

/// The fallback selection: the default country, alone in its list.
pub open spec fn default_selection() -> (nat, Seq<char>, Seq<Seq<char>>) {
    (0, DEFAULT_COUNTRY@, seq![DEFAULT_COUNTRY@])
}

/// The value of the first entry keyed "Country".
pub open spec fn country_of(d: Pairs) -> Option<Seq<char>> {
    if exists|k: int| is_first_country(d, k) {
        Some(d[choose|k: int| is_first_country(d, k)].1)
    } else {
        None
    }
}

/// The first position of `v` in `cs`.
pub open spec fn position_of(cs: Seq<Seq<char>>, v: Seq<char>) -> Option<int> {
    if exists|p: int| is_first_pos(cs, v, p) {
        Some(choose|p: int| is_first_pos(cs, v, p))
    } else {
        None
    }
}

/// The current country's index, name and the country list: the country
/// that the status reports, located in the fetched list; the fallback where
/// there is no status, no country in it, no list, or the country is not in it.
pub open spec fn country_selection(status: Option<Pairs>, countries: Option<Seq<Seq<char>>>) -> (
    nat,
    Seq<char>,
    Seq<Seq<char>>,
) {
    match status {
        Some(d) => match countries {
            Some(cs) => match country_of(d) {
                Some(v) => match position_of(cs, v) {
                    Some(p) => (p as nat, v, cs),
                    None => default_selection(),
                },
                None => default_selection(),
            },
            None => default_selection(),
        },
        None => default_selection(),
    }
}

/// Position of the first entry keyed "Country".
fn first_country(d: &Vec<(String, String)>) -> (r: Option<usize>)
    ensures
        r is None ==> forall|k: int| !is_first_country(pairs(d@), k),
        r is Some ==> is_first_country(pairs(d@), r->0 as int),
{
    let mut k: usize = 0;
    while k < d.len()
        invariant
            k <= d.len(),
            forall|j: int| 0 <= j < k ==> pairs(d@)[j].0 != "Country"@,
        decreases d.len() - k,
    {
        assert(pairs(d@)[k as int] == view_pair(d@[k as int]));
        if same(d[k].0.as_str(), "Country") {
            return Some(k);
        }
        k = k + 1;
    }
    assert forall|c: int| !is_first_country(pairs(d@), c) by {
        if is_first_country(pairs(d@), c) {
            assert(pairs(d@)[c].0 == "Country"@);
        }
    }
    None
}

/// Position of the first item equal to `v`.
fn position(cs: &Vec<String>, v: &str) -> (r: Option<usize>)
    ensures
        r is None ==> forall|p: int| !is_first_pos(strs(cs@), v@, p),
        r is Some ==> is_first_pos(strs(cs@), v@, r->0 as int),
{
    let mut p: usize = 0;
    while p < cs.len()
        invariant
            p <= cs.len(),
            forall|j: int| 0 <= j < p ==> strs(cs@)[j] != v@,
        decreases cs.len() - p,
    {
        if same(cs[p].as_str(), v) {
            return Some(p);
        }
        p = p + 1;
    }
    assert forall|c: int| !is_first_pos(strs(cs@), v@, c) by {
        if is_first_pos(strs(cs@), v@, c) {
            assert(strs(cs@)[c] == v@);
        }
    }
    None
}

proof fn lemma_first_unique_country(d: Pairs, a: int, b: int)
    requires
        is_first_country(d, a),
        is_first_country(d, b),
    ensures
        a == b,
{
    if a < b {
        assert(d[a].0 != "Country"@);
    } else if b < a {
        assert(d[b].0 != "Country"@);
    }
}

proof fn lemma_first_unique_pos(cs: Seq<Seq<char>>, v: Seq<char>, a: int, b: int)
    requires
        is_first_pos(cs, v, a),
        is_first_pos(cs, v, b),
    ensures
        a == b,
{
    if a < b {
        assert(cs[a] != v);
    } else if b < a {
        assert(cs[b] != v);
    }
}

proof fn lemma_selection(d: Pairs, cs: Seq<Seq<char>>, k: int, p: int)
    requires
        is_first_country(d, k),
        is_first_pos(cs, d[k].1, p),
    ensures
        country_selection(Some(d), Some(cs)) == (p as nat, d[k].1, cs),
{
    let c = choose|c: int| is_first_country(d, c);
    lemma_first_unique_country(d, k, c);
    assert(country_of(d) == Some(d[k].1));
    let q = choose|q: int| is_first_pos(cs, d[k].1, q);
    lemma_first_unique_pos(cs, d[k].1, p, q);
    assert(position_of(cs, d[k].1) == Some(p));
}

/// Selects the current country in a freshly fetched list.
pub fn get_countries(status: &Option<Vec<(String, String)>>, countries: Option<Vec<String>>) -> (r: (
    usize,
    String,
    Vec<String>,
))
    ensures
        (r.0 as nat, r.1@, strs(r.2@)) == country_selection(opt_pairs(*status), opt_strs(countries)),
        r.0 < r.2.len(),
{
    if let Some(d) = status {
        if let Some(cs) = countries {
            if let Some(k) = first_country(d) {
                let v = &d[k].1;
                assert(pairs(d@)[k as int] == view_pair(d@[k as int]));
                if let Some(p) = position(&cs, v.as_str()) {
                    proof {
                        lemma_selection(pairs(d@), strs(cs@), k as int, p as int);
                    }
                    return (p, v.clone(), cs);
                }
            }
        }
    }
    let r = (0, String::from_str(DEFAULT_COUNTRY), vec![String::from_str(DEFAULT_COUNTRY)]);
    assert(strs(r.2@) =~= seq![DEFAULT_COUNTRY@]);
    r
}

} // verus!

verus! {

/// The contents of an optional listing, or nothing.
pub open spec fn or_empty<A>(o: Option<Seq<A>>) -> Seq<A> {
    match o {
        Some(s) => s,
        None => seq![],
    }
}

/// The groups to show after a fetch; none where the fetch failed.
pub fn get_groups(fetched: Option<Vec<String>>) -> (r: Vec<String>)
    ensures
        strs(r@) == or_empty(opt_strs(fetched)),
{
    match fetched {
        Some(g) => g,
        None => {
            let r: Vec<String> = Vec::new();
            assert(strs(r@) =~= seq![]);
            r
        },
    }
}

/// The settings to show after a fetch; none where the fetch failed.
pub fn get_settings(fetched: Option<Vec<(String, String)>>) -> (r: Vec<(String, String)>)
    ensures
        pairs(r@) == or_empty(opt_pairs(fetched)),
{
    match fetched {
        Some(s) => s,
        None => {
            let r: Vec<(String, String)> = Vec::new();
            assert(pairs(r@) =~= seq![]);
            r
        },
    }
}

/// The status listing to show; none where the query could not run.
pub fn status_or_empty(status: Option<Vec<(String, String)>>) -> (r: Vec<(String, String)>)
    ensures
        pairs(r@) == or_empty(opt_pairs(status)),
{
    match status {
        Some(d) => d,
        None => {
            let r: Vec<(String, String)> = Vec::new();
            assert(pairs(r@) =~= seq![]);
            r
        },
    }
}

/// Lists fetched again after the connectivity changed.
pub struct Refresh {
    pub countries: Option<Vec<String>>,
    pub groups: Option<Vec<String>>,
    pub settings: Option<Vec<(String, String)>>,
}

/// The tray's state, as plain values.
pub struct TrayView {
    pub countries: Seq<Seq<char>>,
    pub groups: Seq<Seq<char>>,
    pub target_index: nat,
    pub use_country: bool,
    pub connected: bool,
    pub status: Pairs,
    pub settings: Pairs,
}

impl TrayView {
    /// The list that the selection refers to.
    pub open spec fn active(self) -> Seq<Seq<char>> {
        if self.use_country {
            self.countries
        } else {
            self.groups
        }
    }

    /// The selected target is a position in the active list.
    pub open spec fn wf(self) -> bool {
        self.target_index < self.active().len()
    }
}

/// The state built from the first poll: the status query's result and the
/// three lists; the selection is the current country.
pub open spec fn initial(
    status: Option<Pairs>,
    countries: Option<Seq<Seq<char>>>,
    groups: Option<Seq<Seq<char>>>,
    settings: Option<Pairs>,
) -> TrayView {
    let sel = country_selection(status, countries);
    TrayView {
        countries: sel.2,
        groups: or_empty(groups),
        target_index: sel.0,
        use_country: true,
        connected: connected_of(status),
        status: or_empty(status),
        settings: or_empty(settings),
    }
}

/// A poll of status `status`. Where the query could not run, nothing
/// changes. Otherwise the connectivity follows the status and the status is
/// replaced; only where the connectivity changed are the lists taken from
/// `refresh`, with the current country selected again.
pub open spec fn polled(t: TrayView, status: Option<Pairs>, refresh: Option<Refresh>) -> TrayView {
    match status {
        None => t,
        Some(d) => {
            let c = connected_in(d);
            let base = TrayView { connected: c, status: d, ..t };
            match refresh {
                Some(r) => if c != t.connected {
                    let sel = country_selection(status, opt_strs(r.countries));
                    TrayView {
                        countries: sel.2,
                        groups: or_empty(opt_strs(r.groups)),
                        target_index: sel.0,
                        use_country: true,
                        settings: or_empty(opt_pairs(r.settings)),
                        ..base
                    }
                } else {
                    base
                },
                None => base,
            }
        },
    }
}

/// After a connect to position `index` of the countries (`use_country`) or of
/// the groups: where it succeeded, connected with that target selected.
pub open spec fn connected_to(t: TrayView, index: nat, use_country: bool, succeeded: bool) -> TrayView {
    if succeeded {
        TrayView { connected: true, use_country, target_index: index, ..t }
    } else {
        t
    }
}

/// After a disconnect: where it succeeded, not connected.
pub open spec fn disconnected_to(t: TrayView, succeeded: bool) -> TrayView {
    if succeeded {
        TrayView { connected: false, ..t }
    } else {
        t
    }
}

/// The value a setting shows once flipped: "enabled" and "disabled" trade
/// places; any other value stays.
pub open spec fn flipped(v: Seq<char>) -> Seq<char> {
    if v == "enabled"@ {
        "disabled"@
    } else if v == "disabled"@ {
        "enabled"@
    } else {
        v
    }
}

/// After a command that flips setting `index`: where it succeeded, the value
/// shown is flipped ahead of the next fetch.
pub open spec fn setting_flipped(t: TrayView, index: int, succeeded: bool) -> TrayView {
    if succeeded {
        TrayView { settings: t.settings.update(index, (t.settings[index].0, flipped(t.settings[index].1))), ..t }
    } else {
        t
    }
}

/// After a fetch of the settings: the fetched settings where it ran, the
/// settings as they were where it failed.
pub open spec fn settings_replaced(t: TrayView, fetched: Option<Pairs>) -> TrayView {
    match fetched {
        Some(f) => TrayView { settings: f, ..t },
        None => t,
    }
}

pub struct VpnTray {
    countries: Vec<String>,
    groups: Vec<String>,
    target_index: usize,
    use_country: bool,
    connected: bool,
    status_details: Vec<(String, String)>,
    settings: Vec<(String, String)>,
}

impl View for VpnTray {
    type V = TrayView;

    closed spec fn view(&self) -> TrayView {
        TrayView {
            countries: strs(self.countries@),
            groups: strs(self.groups@),
            target_index: self.target_index as nat,
            use_country: self.use_country,
            connected: self.connected,
            status: pairs(self.status_details@),
            settings: pairs(self.settings@),
        }
    }
}

impl VpnTray {
    /// Builds the state from the first poll.
    pub fn new(
        status: Option<Vec<(String, String)>>,
        countries: Option<Vec<String>>,
        groups: Option<Vec<String>>,
        settings: Option<Vec<(String, String)>>,
    ) -> (r: VpnTray)
        ensures
            r@ == initial(opt_pairs(status), opt_strs(countries), opt_strs(groups), opt_pairs(settings)),
            r@.wf(),
    {
        let connected = is_connected(&status);
        let (index, _, countries) = get_countries(&status, countries);
        let status_details = status_or_empty(status);
        VpnTray {
            countries,
            groups: get_groups(groups),
            target_index: index,
            use_country: true,
            connected,
            status_details,
            settings: get_settings(settings),
        }
    }

    /// Whether a poll that got `status` must fetch the lists again: exactly
    /// when the query ran and the connectivity it shows differs from the
    /// state's.
    pub fn needs_refresh(&self, status: &Option<Vec<(String, String)>>) -> (r: bool)
        ensures
            r == (status is Some && connected_of(opt_pairs(*status)) != self@.connected),
    {
        status.is_some() && is_connected(status) != self.connected
    }

    /// Sets the connectivity.
    pub fn change_status(&mut self, status: bool)
        ensures
            final(self)@ == (TrayView { connected: status, ..old(self)@ }),
    {
        self.connected = status;
    }

    /// Takes in one poll: the status query's result and, where the lists were
    /// fetched again, those lists. A query that could not run changes nothing.
    pub fn poll(&mut self, status: Option<Vec<(String, String)>>, refresh: Option<Refresh>)
        requires
            old(self)@.wf(),
        ensures
            final(self)@ == polled(old(self)@, opt_pairs(status), refresh),
            final(self)@.wf(),
    {
        if status.is_none() {
            return;
        }
        let connected = is_connected(&status);
        if connected != self.connected {
            self.change_status(connected);
            if let Some(r) = refresh {
                let (index, _, countries) = get_countries(&status, r.countries);
                self.target_index = index;
                self.use_country = true;
                self.countries = countries;
                self.settings = get_settings(r.settings);
                self.groups = get_groups(r.groups);
            }
        }
        self.status_details = status_or_empty(status);
    }

    /// The name of target `index` in the countries (`use_country`) or groups.
    pub fn target(&self, index: usize, use_country: bool) -> (r: String)
        requires
            index < (if use_country { self@.countries.len() } else { self@.groups.len() }),
        ensures
            r@ == (if use_country { self@.countries } else { self@.groups })[index as int],
    {
        if use_country {
            assert(self@.countries[index as int] == self.countries@[index as int]@);
            self.countries[index].clone()
        } else {
            assert(self@.groups[index as int] == self.groups@[index as int]@);
            self.groups[index].clone()
        }
    }

    /// Takes in the outcome of connecting to target `index`.
    pub fn connect(&mut self, index: usize, use_country: bool, succeeded: bool)
        requires
            old(self)@.wf(),
            index < (if use_country { old(self)@.countries.len() } else { old(self)@.groups.len() }),
        ensures
            final(self)@ == connected_to(old(self)@, index as nat, use_country, succeeded),
            final(self)@.wf(),
    {
        if succeeded {
            self.connected = true;
            self.use_country = use_country;
            self.target_index = index;
        }
    }

    /// Takes in the outcome of disconnecting.
    pub fn disconnect(&mut self, succeeded: bool)
        ensures
            final(self)@ == disconnected_to(old(self)@, succeeded),
    {
        if succeeded {
            self.connected = false;
        }
    }

    /// The command that the connect/disconnect item runs: disconnect when
    /// connected, else connect to the selected target.
    pub fn connectivity_command(&self) -> (r: Vec<String>)
        requires
            self@.wf(),
        ensures
            strs(r@) == (if self@.connected {
                seq!["disconnect"@]
            } else {
                seq!["connect"@, slug(self@.active()[self@.target_index as int])]
            }),
    {
        if self.connected {
            vpn::disconnect()
        } else {
            let t = self.target(self.target_index, self.use_country);
            vpn::connect(t.as_str())
        }
    }

    /// Takes in the outcome of the connect/disconnect item's command.
    pub fn change_connectivity_state(&mut self, succeeded: bool)
        requires
            old(self)@.wf(),
        ensures
            final(self)@ == (if old(self)@.connected {
                disconnected_to(old(self)@, succeeded)
            } else {
                connected_to(old(self)@, old(self)@.target_index, old(self)@.use_country, succeeded)
            }),
            final(self)@.wf(),
    {
        if self.connected {
            self.disconnect(succeeded);
        } else {
            self.connect(self.target_index, self.use_country, succeeded);
        }
    }

    /// The command that flips setting `index`.
    pub fn settings_command(&self, index: usize) -> (r: Vec<String>)
        requires
            index < self@.settings.len(),
        ensures
            strs(r@) == setting_args(lower_of(self@.settings[index as int].0), self@.settings[index as int].1),
    {
        assert(self@.settings[index as int] == view_pair(self.settings@[index as int]));
        vpn::set_settings(self.settings[index].0.as_str(), self.settings[index].1.as_str())
    }

    /// Takes in the outcome of flipping setting `index`.
    pub fn change_settings(&mut self, index: usize, succeeded: bool)
        requires
            index < old(self)@.settings.len(),
        ensures
            final(self)@ == setting_flipped(old(self)@, index as int, succeeded),
    {
        if succeeded {
            let key = self.settings[index].0.clone();
            let value = flip(self.settings[index].1.as_str());
            let ghost before = self.settings@;
            self.settings.set(index, (key, value));
            proof {
                assert(pairs(self.settings@) =~= pairs(before).update(
                    index as int,
                    (pairs(before)[index as int].0, flipped(pairs(before)[index as int].1)),
                ));
            }
        }
    }

    /// Replaces the settings with a fresh fetch; where the fetch failed, the
    /// settings stay as they are.
    pub fn replace_settings(&mut self, fetched: Option<Vec<(String, String)>>)
        ensures
            final(self)@ == settings_replaced(old(self)@, opt_pairs(fetched)),
    {
        if let Some(s) = fetched {
            self.settings = s;
        }
    }
}

/// The flipped form of a setting's value.
fn flip(v: &str) -> (r: String)
    ensures
        r@ == flipped(v@),
{
    if same(v, "enabled") {
        String::from_str("disabled")
    } else if same(v, "disabled") {
        String::from_str("enabled")
    } else {
        String::from_str(v)
    }
}

} // verus!

verus! {

/// Index past the end of a list: it marks no entry as selected.
pub open spec fn none_selected(len: nat, r: nat) -> bool {
    r >= len
}

impl VpnTray {
    /// Icon of the tray: one glyph when connected, another when not.
    pub fn icon_name(&self) -> (r: String)
        ensures
            r@ == (if self@.connected { "emblem-default"@ } else { "face-monkey"@ }),
    {
        if self.connected {
            String::from_str("emblem-default")
        } else {
            String::from_str("face-monkey")
        }
    }

    /// Label of the connect/disconnect item.
    pub fn connectivity_label(&self) -> (r: String)
        ensures
            r@ == (if self@.connected { "Disconnect"@ } else { "Connect"@ }),
    {
        if self.connected {
            String::from_str("Disconnect")
        } else {
            String::from_str("Connect")
        }
    }

    /// The entry shown as selected in the countries (`countries`) or groups
    /// submenu: the selected target where that list is the active one, else a
    /// position past the end of the list, so that no entry is marked.
    pub fn selected(&self, countries: bool) -> (r: usize)
        ensures
            countries == self@.use_country ==> r == self@.target_index,
            countries != self@.use_country ==> none_selected(
                (if countries { self@.countries.len() } else { self@.groups.len() }),
                r as nat,
            ),
    {
        if countries == self.use_country {
            self.target_index
        } else if countries {
            self.countries.len()
        } else {
            self.groups.len()
        }
    }

    pub fn countries(&self) -> (r: &Vec<String>)
        ensures
            strs(r@) == self@.countries,
    {
        &self.countries
    }

    pub fn groups(&self) -> (r: &Vec<String>)
        ensures
            strs(r@) == self@.groups,
    {
        &self.groups
    }

    pub fn status_details(&self) -> (r: &Vec<(String, String)>)
        ensures
            pairs(r@) == self@.status,
    {
        &self.status_details
    }

    pub fn settings(&self) -> (r: &Vec<(String, String)>)
        ensures
            pairs(r@) == self@.settings,
    {
        &self.settings
    }

    pub fn connected(&self) -> (r: bool)
        ensures
            r == self@.connected,
    {
        self.connected
    }

    pub fn target_index(&self) -> (r: usize)
        ensures
            r == self@.target_index,
    {
        self.target_index
    }

    pub fn use_country(&self) -> (r: bool)
        ensures
            r == self@.use_country,
    {
        self.use_country
    }
}

/// The text of a "key: value" menu entry.
pub fn entry_label(key: &str, value: &str) -> (r: String)
    ensures
        r@ == key@ + ": "@ + value@,
{
    let mut r = String::from_str(key);
    r.append(": ");
    r.append(value);
    r
}

/// A setting can be flipped from the menu only when its value is exactly
/// "enabled" or "disabled".
pub fn is_toggleable(value: &str) -> (r: bool)
    ensures
        r == (value@ == "enabled"@ || value@ == "disabled"@),
{
    same(value, "enabled") || same(value, "disabled")
}

/// A setting is shown checked when its value is "enabled".
pub fn is_checked(value: &str) -> (r: bool)
    ensures
        r == (value@ == "enabled"@),
{
    same(value, "enabled")
}

} // verus!

verus! {

/// When the daemon answers a status query with a failure, the status is
/// exactly the disconnected one with the default country, and it shows no
/// connection.
pub proof fn lemma_daemon_failure(stdout: String)
    ensures
        status_of(Outcome::Exited { success: false, stdout }) == Some(
            seq![("Status"@, "Disconnected"@), ("Country"@, DEFAULT_COUNTRY@)],
        ),
        !connected_of(status_of(Outcome::Exited { success: false, stdout })),
{
    reveal_strlit("Disconnected");
    reveal_strlit("Connected");
    reveal_strlit("Netherlands");
    let d = disconnected_status();
    assert("Disconnected"@.len() == 12);
    assert("Connected"@.len() == 9);
    assert(DEFAULT_COUNTRY@.len() == 11);
    assert(d[0].1 != "Connected"@);
    assert(d[1].1 != "Connected"@);
}

/// A status query that could not run changes nothing. One that ran always
/// gives the new status and the connectivity it shows. Where the
/// connectivity did not change, the lists and the selection stay as they
/// were; where it changed, they come from the refetch. Either way the state
/// after the poll shows that connectivity, so polling the same status again
/// asks for no further refetch.
pub proof fn lemma_refetch_on_transition(t: TrayView, status: Option<Pairs>, refresh: Option<Refresh>)
    ensures
        status is None ==> polled(t, status, refresh) == t,
        status is Some ==> polled(t, status, refresh).status == status->0,
        status is Some ==> polled(t, status, refresh).connected == connected_of(status),
        status is Some && connected_of(status) == t.connected ==> {
            let n = polled(t, status, refresh);
            &&& n.countries == t.countries
            &&& n.groups == t.groups
            &&& n.settings == t.settings
            &&& n.target_index == t.target_index
            &&& n.use_country == t.use_country
        },
        status is Some && connected_of(status) != t.connected && refresh is Some ==> {
            let n = polled(t, status, refresh);
            let r = refresh->0;
            let sel = country_selection(status, opt_strs(r.countries));
            &&& n.countries == sel.2
            &&& n.target_index == sel.0
            &&& n.use_country
            &&& n.groups == or_empty(opt_strs(r.groups))
            &&& n.settings == or_empty(opt_pairs(r.settings))
        },
{
}

/// Flipping a setting shown "enabled" sends "off"; once the command succeeded
/// the setting shows "disabled", until settings fetched afterwards replace
/// it. A fetch that fails leaves "disabled" in place.
pub proof fn lemma_toggle_enabled(t: TrayView, index: int, fetched: Option<Pairs>)
    requires
        0 <= index < t.settings.len(),
        t.settings[index].1 == "enabled"@,
    ensures
        flip_arg(t.settings[index].1) == "off"@,
        setting_flipped(t, index, true).settings[index] == (t.settings[index].0, "disabled"@),
        fetched is Some ==> settings_replaced(setting_flipped(t, index, true), fetched).settings
            == fetched->0,
        fetched is None ==> settings_replaced(setting_flipped(t, index, true), fetched).settings[index]
            == (t.settings[index].0, "disabled"@),
{
}

/// Connecting to a country makes the countries the active list with that
/// country selected, whatever list was active before; the state stays
/// well formed.
pub proof fn lemma_select_country(t: TrayView, index: nat)
    requires
        t.wf(),
        index < t.countries.len(),
    ensures
        connected_to(t, index, true, true).use_country,
        connected_to(t, index, true, true).target_index == index,
        connected_to(t, index, true, true).connected,
        connected_to(t, index, true, true).wf(),
{
}

} // verus!
