//! Per-container firewall rules and DDoS profiles, compiled to packet-filter
//! command lines. Running the commands is left to the caller.

use vstd::prelude::*;
use crate::state::clone_opt;
use crate::text::{decimal, decimal_string, same_text, texts};

verus! {

broadcast use vstd::seq_lib::group_filter_ensures;

/// What a matching packet meets.
#[derive(Debug, Clone, Copy, PartialEq, Eq, Structural)]
pub enum FirewallAction {
    Accept,
    Drop,
    Reject,
}

/// The protocol a rule matches.
#[derive(Debug, Clone, Copy, PartialEq, Eq, Structural)]
pub enum Protocol {
    Tcp,
    Udp,
    Icmp,
    All,
}

/// At most `requests` packets per `per_seconds`.
#[derive(Debug, Clone, Copy, PartialEq, Eq, Structural)]
pub struct RateLimit {
    pub requests: u32,
    pub per_seconds: u32,
}

/// One rule of a container's chain.
#[derive(Debug)]
pub struct FirewallRule {
    pub id: String,
    pub container_id: String,
    pub source_ip: Option<String>,
    pub source_port: Option<u16>,
    pub dest_port: Option<u16>,
    pub protocol: Protocol,
    pub action: FirewallAction,
    pub rate_limit: Option<RateLimit>,
    pub description: Option<String>,
    pub enabled: bool,
}

impl Clone for FirewallRule {
    fn clone(&self) -> (r: Self)
        ensures
            r == *self,
    {
        FirewallRule {
            id: self.id.clone(),
            container_id: self.container_id.clone(),
            source_ip: clone_opt(&self.source_ip),
            source_port: self.source_port,
            dest_port: self.dest_port,
            protocol: self.protocol,
            action: self.action,
            rate_limit: self.rate_limit,
            description: clone_opt(&self.description),
            enabled: self.enabled,
        }
    }
}

/// A container's DDoS profile.
#[derive(Debug, Clone, Copy, PartialEq, Eq, Structural)]
pub struct DDoSProtection {
    pub enabled: bool,
    pub syn_flood_protection: bool,
    pub connection_limit: Option<u32>,
    pub rate_limit: Option<RateLimit>,
}

/// Why a rule is refused.
#[derive(Debug, Clone, Copy, PartialEq, Eq, Structural)]
pub enum RuleError {
    EmptyContainerId,
    InvalidSourcePort,
    InvalidDestinationPort,
    InvalidRateLimit,
}

/// Why a firewall operation did not complete.
#[derive(Debug, Clone, Copy, PartialEq, Eq, Structural)]
pub enum FirewallError {
    /// The rule breaks a rule of well-formedness.
    Invalid(RuleError),
    /// No rule has the given id.
    NotFound,
    /// A rule with the given id already exists.
    Conflict,
}

/// Names the result of `str::to_uppercase` on `s`.
pub uninterp spec fn upper_of(s: Seq<char>) -> Seq<char>;

/// Relies on `str::to_uppercase`: the result depends on the characters alone.
#[verifier::external_body]
fn uppercase(s: &str) -> (r: String)
    ensures
        r@ == upper_of(s@),
{
    s.to_uppercase()
}

/// Command lines, as character sequences.
pub open spec fn lines(v: Seq<Vec<String>>) -> Seq<Seq<Seq<char>>> {
    v.map_values(|c: Vec<String>| texts(c@))
}

/// The first rule of well-formedness that `rule` breaks.
pub open spec fn rule_error(rule: FirewallRule) -> Option<RuleError> {
    if rule.container_id@.len() == 0 {
        Some(RuleError::EmptyContainerId)
    } else if rule.source_port == Some(0u16) {
        Some(RuleError::InvalidSourcePort)
    } else if rule.dest_port == Some(0u16) {
        Some(RuleError::InvalidDestinationPort)
    } else if rule.rate_limit.is_some() && (rule.rate_limit.unwrap().requests == 0
        || rule.rate_limit.unwrap().per_seconds == 0) {
        Some(RuleError::InvalidRateLimit)
    } else {
        None
    }
}

/// Accepts `rule`, or names the first rule of well-formedness it breaks.
pub fn validate_rule(rule: &FirewallRule) -> (r: Result<(), RuleError>)
    ensures
        r is Ok <==> rule_error(*rule).is_none(),
        r is Err ==> Some(r->Err_0) == rule_error(*rule),
{
    if rule.container_id.as_str().is_empty() {
        return Err(RuleError::EmptyContainerId);
    }
    if let Some(port) = rule.source_port {
        if port == 0 {
            return Err(RuleError::InvalidSourcePort);
        }
    }
    if let Some(port) = rule.dest_port {
        if port == 0 {
            return Err(RuleError::InvalidDestinationPort);
        }
    }
    if let Some(rate) = rule.rate_limit {
        if rate.requests == 0 || rate.per_seconds == 0 {
            return Err(RuleError::InvalidRateLimit);
        }
    }
    Ok(())
}

/// The chain of a container: "LIGHTD-" and the upper-cased id.
pub open spec fn chain_of(upper_id: Seq<char>) -> Seq<char> {
    "LIGHTD-"@ + upper_id
}

/// The chain for a container whose upper-cased id is `upper_id`.
pub fn chain_for_upper(upper_id: &str) -> (r: String)
    ensures
        r@ == chain_of(upper_id@),
{
    String::from_str("LIGHTD-").concat(upper_id)
}

/// The chain of the container `container_id`.
pub fn chain_name(container_id: &str) -> (r: String)
    ensures
        r@ == chain_of(upper_of(container_id@)),
{
    let upper = uppercase(container_id);
    chain_for_upper(upper.as_str())
}

/// The protocol as the packet filter names it.
pub open spec fn protocol_text(p: Protocol) -> Seq<char> {
    match p {
        Protocol::Tcp => "tcp"@,
        Protocol::Udp => "udp"@,
        Protocol::Icmp => "icmp"@,
        Protocol::All => "all"@,
    }
}

/// The protocol as the packet filter names it.
pub fn protocol_name(p: Protocol) -> (r: String)
    ensures
        r@ == protocol_text(p),
{
    match p {
        Protocol::Tcp => String::from_str("tcp"),
        Protocol::Udp => String::from_str("udp"),
        Protocol::Icmp => String::from_str("icmp"),
        Protocol::All => String::from_str("all"),
    }
}

/// The jump target of an action.
pub open spec fn action_text(a: FirewallAction) -> Seq<char> {
    match a {
        FirewallAction::Accept => "ACCEPT"@,
        FirewallAction::Drop => "DROP"@,
        FirewallAction::Reject => "REJECT"@,
    }
}

/// The jump target of an action.
pub fn action_name(a: FirewallAction) -> (r: String)
    ensures
        r@ == action_text(a),
{
    match a {
        FirewallAction::Accept => String::from_str("ACCEPT"),
        FirewallAction::Drop => String::from_str("DROP"),
        FirewallAction::Reject => String::from_str("REJECT"),
    }
}

/// A rate as the limit match writes it: "requests/seconds".
pub open spec fn rate_text(r: RateLimit) -> Seq<char> {
    decimal(r.requests as nat) + "/"@ + decimal(r.per_seconds as nat)
}

/// A rate as the limit match writes it.
pub fn rate_string(r: RateLimit) -> (s: String)
    ensures
        s@ == rate_text(r),
{
    decimal_string(r.requests as u64).concat("/").concat(decimal_string(r.per_seconds as u64).as_str())
}

/// Protocol match arguments of a rule.
pub open spec fn proto_args(rule: FirewallRule) -> Seq<Seq<char>> {
    if rule.protocol != Protocol::All { seq!["-p"@, protocol_text(rule.protocol)] } else { Seq::empty() }
}

/// Source address arguments of a rule.
pub open spec fn source_args(rule: FirewallRule) -> Seq<Seq<char>> {
    match rule.source_ip {
        Some(ip) => seq!["-s"@, ip@],
        None => Seq::empty(),
    }
}

/// Port arguments under `flag` for an optional port.
pub open spec fn port_args(flag: Seq<char>, port: Option<u16>) -> Seq<Seq<char>> {
    match port {
        Some(p) => seq![flag, decimal(p as nat)],
        None => Seq::empty(),
    }
}

/// Rate-limit match arguments of a rule.
pub open spec fn rate_args(rate: Option<RateLimit>) -> Seq<Seq<char>> {
    match rate {
        Some(r) => seq!["-m"@, "limit"@, "--limit"@, rate_text(r)],
        None => Seq::empty(),
    }
}

/// The arguments that append (`add`) or delete the rule in `chain`.
pub open spec fn rule_args_of(rule: FirewallRule, add: bool, chain: Seq<char>) -> Seq<Seq<char>> {
    seq![if add { "-A"@ } else { "-D"@ }, chain] + proto_args(rule) + source_args(rule)
        + port_args("--sport"@, rule.source_port) + port_args("--dport"@, rule.dest_port)
        + rate_args(rule.rate_limit) + seq!["-j"@, action_text(rule.action)]
}

/// Appends `s` to `v`.
fn push_arg(v: &mut Vec<String>, s: String)
    ensures
        texts(final(v)@) == texts(old(v)@).push(s@),
{
    v.push(s);
    assert(texts(v@) =~= texts(old(v)@).push(s@));
}

/// Appends every string of `extra` to `v`.
fn append_args(v: &mut Vec<String>, extra: Vec<String>)
    ensures
        texts(final(v)@) == texts(old(v)@) + texts(extra@),
{
    let mut extra = extra;
    let ghost e = extra@;
    v.append(&mut extra);
    assert(texts(v@) =~= texts(old(v)@) + texts(e));
}

/// A pair of arguments.
fn pair(a: String, b: String) -> (r: Vec<String>)
    ensures
        texts(r@) == seq![a@, b@],
{
    let mut r: Vec<String> = Vec::new();
    push_arg(&mut r, a);
    push_arg(&mut r, b);
    assert(texts(r@) =~= seq![a@, b@]);
    r
}

/// Protocol match arguments of a rule.
fn proto_arg_vec(rule: &FirewallRule) -> (r: Vec<String>)
    ensures
        texts(r@) == proto_args(*rule),
{
    if rule.protocol != Protocol::All {
        pair(String::from_str("-p"), protocol_name(rule.protocol))
    } else {
        let r: Vec<String> = Vec::new();
        assert(texts(r@) =~= Seq::<Seq<char>>::empty());
        r
    }
}

/// Source address arguments of a rule.
fn source_arg_vec(rule: &FirewallRule) -> (r: Vec<String>)
    ensures
        texts(r@) == source_args(*rule),
{
    match &rule.source_ip {
        Some(ip) => pair(String::from_str("-s"), ip.clone()),
        None => {
            let r: Vec<String> = Vec::new();
            assert(texts(r@) =~= Seq::<Seq<char>>::empty());
            r
        },
    }
}

/// Port arguments under `flag` for an optional port.
fn port_arg_vec(flag: &str, port: Option<u16>) -> (r: Vec<String>)
    ensures
        texts(r@) == port_args(flag@, port),
{
    match port {
        Some(p) => pair(String::from_str(flag), decimal_string(p as u64)),
        None => {
            let r: Vec<String> = Vec::new();
            assert(texts(r@) =~= Seq::<Seq<char>>::empty());
            r
        },
    }
}

/// Rate-limit match arguments.
fn rate_arg_vec(rate: Option<RateLimit>) -> (r: Vec<String>)
    ensures
        texts(r@) == rate_args(rate),
{
    let mut r: Vec<String> = Vec::new();
    if let Some(rl) = rate {
        push_arg(&mut r, String::from_str("-m"));
        push_arg(&mut r, String::from_str("limit"));
        push_arg(&mut r, String::from_str("--limit"));
        push_arg(&mut r, rate_string(rl));
    }
    assert(texts(r@) =~= rate_args(rate));
    r
}

/// The arguments that append (`add`) or delete the rule in `chain`.
pub fn iptables_rule_args(rule: &FirewallRule, add: bool, chain: &str) -> (r: Vec<String>)
    ensures
        texts(r@) == rule_args_of(*rule, add, chain@),
{
    let mut args = pair(if add { String::from_str("-A") } else { String::from_str("-D") }, String::from_str(chain));
    append_args(&mut args, proto_arg_vec(rule));
    append_args(&mut args, source_arg_vec(rule));
    append_args(&mut args, port_arg_vec("--sport", rule.source_port));
    append_args(&mut args, port_arg_vec("--dport", rule.dest_port));
    append_args(&mut args, rate_arg_vec(rule.rate_limit));
    append_args(&mut args, pair(String::from_str("-j"), action_name(rule.action)));
    args
}

/// One command line from its words.
fn line_of(words: Vec<&str>) -> (r: Vec<String>)
    ensures
        texts(r@) == words@.map_values(|w: &str| w@),
{
    let mut r: Vec<String> = Vec::new();
    let mut i: usize = 0;
    while i < words.len()
        invariant
            i <= words@.len(),
            texts(r@) == words@.subrange(0, i as int).map_values(|w: &str| w@),
        decreases words.len() - i,
    {
        push_arg(&mut r, String::from_str(words[i]));
        assert(words@.subrange(0, i + 1).map_values(|w: &str| w@) =~= words@.subrange(0, i as int).map_values(
            |w: &str| w@,
        ).push(words@[i as int]@));
        i = i + 1;
    }
    assert(words@.subrange(0, words@.len() as int) =~= words@);
    r
}

/// The network of a container: "lightd-net-" and its id.
pub open spec fn network_of(container_id: Seq<char>) -> Seq<char> {
    "lightd-net-"@ + container_id
}

/// Commands of the SYN-flood guard in `chain`: accept at most 10 SYN
/// packets a second with bursts of 20, drop the rest.
pub open spec fn syn_flood_lines(chain: Seq<char>) -> Seq<Seq<Seq<char>>> {
    seq![
        seq!["-N"@, chain],
        seq!["-A"@, chain, "-p"@, "tcp"@, "--syn"@, "-m"@, "limit"@, "--limit"@, "10/s"@, "--limit-burst"@, "20"@, "-j"@, "ACCEPT"@],
        seq!["-A"@, chain, "-p"@, "tcp"@, "--syn"@, "-j"@, "DROP"@]
    ]
}

/// Commands of the connection cap in `chain`: reset TCP connections above `limit`.
pub open spec fn connection_limit_lines(chain: Seq<char>, limit: u32) -> Seq<Seq<Seq<char>>> {
    seq![
        seq!["-N"@, chain],
        seq!["-A"@, chain, "-p"@, "tcp"@, "-m"@, "connlimit"@, "--connlimit-above"@, decimal(limit as nat), "-j"@, "REJECT"@, "--reject-with"@, "tcp-reset"@]
    ]
}

/// Commands of the rate limit in `chain`: accept up to the rate, drop the rest.
pub open spec fn rate_limit_lines(chain: Seq<char>, rate: RateLimit) -> Seq<Seq<Seq<char>>> {
    seq![
        seq!["-N"@, chain],
        seq!["-A"@, chain, "-m"@, "limit"@, "--limit"@, rate_text(rate), "-j"@, "ACCEPT"@],
        seq!["-A"@, chain, "-j"@, "DROP"@]
    ]
}

/// All commands of a DDoS profile for the container `container_id`.
pub open spec fn ddos_lines(container_id: Seq<char>, p: DDoSProtection) -> Seq<Seq<Seq<char>>> {
    let net = network_of(container_id);
    if !p.enabled {
        Seq::empty()
    } else {
        (if p.syn_flood_protection { syn_flood_lines("LIGHTD-SYN-"@ + net) } else { Seq::empty() })
            + (match p.connection_limit {
                Some(l) => connection_limit_lines("LIGHTD-CONN-"@ + net, l),
                None => Seq::empty(),
            })
            + (match p.rate_limit {
                Some(r) => rate_limit_lines("LIGHTD-RATE-"@ + net, r),
                None => Seq::empty(),
            })
    }
}

/// Appends one command line.
fn push_line(v: &mut Vec<Vec<String>>, l: Vec<String>)
    ensures
        lines(final(v)@) == lines(old(v)@).push(texts(l@)),
{
    v.push(l);
    assert(lines(v@) =~= lines(old(v)@).push(texts(l@)));
}

/// Appends command lines.
fn append_lines(v: &mut Vec<Vec<String>>, extra: Vec<Vec<String>>)
    ensures
        lines(final(v)@) == lines(old(v)@) + lines(extra@),
{
    let mut extra = extra;
    let ghost e = extra@;
    v.append(&mut extra);
    assert(lines(v@) =~= lines(old(v)@) + lines(e));
}

/// The command creating `chain`.
fn new_chain_line(chain: &str) -> (r: Vec<String>)
    ensures
        texts(r@) == seq!["-N"@, chain@],
{
    pair(String::from_str("-N"), String::from_str(chain))
}

/// Commands of the SYN-flood guard in `chain`.
pub fn syn_flood_commands(chain: &str) -> (r: Vec<Vec<String>>)
    ensures
        lines(r@) == syn_flood_lines(chain@),
{
    let mut r: Vec<Vec<String>> = Vec::new();
    push_line(&mut r, new_chain_line(chain));
    let l2 = line_of(vec!["-A", chain, "-p", "tcp", "--syn", "-m", "limit", "--limit", "10/s", "--limit-burst", "20", "-j", "ACCEPT"]);
    assert(texts(l2@) =~= syn_flood_lines(chain@)[1]);
    push_line(&mut r, l2);
    let l3 = line_of(vec!["-A", chain, "-p", "tcp", "--syn", "-j", "DROP"]);
    assert(texts(l3@) =~= seq!["-A"@, chain@, "-p"@, "tcp"@, "--syn"@, "-j"@, "DROP"@]);
    push_line(&mut r, l3);
    assert(lines(r@) =~= syn_flood_lines(chain@));
    r
}

/// Commands of the connection cap in `chain`.
pub fn connection_limit_commands(chain: &str, limit: u32) -> (r: Vec<Vec<String>>)
    ensures
        lines(r@) == connection_limit_lines(chain@, limit),
{
    let mut r: Vec<Vec<String>> = Vec::new();
    push_line(&mut r, new_chain_line(chain));
    let mut l = line_of(vec!["-A", chain, "-p", "tcp", "-m", "connlimit", "--connlimit-above"]);
    push_arg(&mut l, decimal_string(limit as u64));
    append_args(&mut l, line_of(vec!["-j", "REJECT", "--reject-with", "tcp-reset"]));
    assert(texts(l@) =~= connection_limit_lines(chain@, limit)[1]);
    push_line(&mut r, l);
    assert(lines(r@) =~= connection_limit_lines(chain@, limit));
    r
}

/// Commands of the rate limit in `chain`.
pub fn rate_limit_commands(chain: &str, rate: RateLimit) -> (r: Vec<Vec<String>>)
    ensures
        lines(r@) == rate_limit_lines(chain@, rate),
{
    let mut r: Vec<Vec<String>> = Vec::new();
    push_line(&mut r, new_chain_line(chain));
    let mut l = line_of(vec!["-A", chain, "-m", "limit", "--limit"]);
    push_arg(&mut l, rate_string(rate));
    append_args(&mut l, line_of(vec!["-j", "ACCEPT"]));
    assert(texts(l@) =~= rate_limit_lines(chain@, rate)[1]);
    push_line(&mut r, l);
    let l3 = line_of(vec!["-A", chain, "-j", "DROP"]);
    assert(texts(l3@) =~= rate_limit_lines(chain@, rate)[2]);
    push_line(&mut r, l3);
    assert(lines(r@) =~= rate_limit_lines(chain@, rate));
    r
}

/// All commands of the DDoS profile `protection` for `container_id`; none
/// when the profile is disabled.
pub fn ddos_commands(container_id: &str, protection: DDoSProtection) -> (r: Vec<Vec<String>>)
    ensures
        lines(r@) == ddos_lines(container_id@, protection),
{
    let mut r: Vec<Vec<String>> = Vec::new();
    if !protection.enabled {
        assert(lines(r@) =~= ddos_lines(container_id@, protection));
        return r;
    }
    let net = String::from_str("lightd-net-").concat(container_id);
    if protection.syn_flood_protection {
        let chain = String::from_str("LIGHTD-SYN-").concat(net.as_str());
        append_lines(&mut r, syn_flood_commands(chain.as_str()));
    }
    let ghost a1 = lines(r@);
    if let Some(limit) = protection.connection_limit {
        let chain = String::from_str("LIGHTD-CONN-").concat(net.as_str());
        append_lines(&mut r, connection_limit_commands(chain.as_str(), limit));
    }
    let ghost a2 = lines(r@);
    if let Some(rate) = protection.rate_limit {
        let chain = String::from_str("LIGHTD-RATE-").concat(net.as_str());
        append_lines(&mut r, rate_limit_commands(chain.as_str(), rate));
    }
    proof {
        assert(a1 =~= (if protection.syn_flood_protection { syn_flood_lines("LIGHTD-SYN-"@ + network_of(container_id@)) } else { Seq::empty() }));
        assert(lines(r@) =~= ddos_lines(container_id@, protection));
    }
    r
}

/// Some rule of `v` has id `id`.
pub open spec fn has_rule(v: Seq<FirewallRule>, id: Seq<char>) -> bool {
    exists|i: int| 0 <= i < v.len() && (#[trigger] v[i]).id@ == id
}

/// Position of the rule with id `id`.
pub open spec fn rule_index(v: Seq<FirewallRule>, id: Seq<char>) -> int {
    choose|i: int| 0 <= i < v.len() && (#[trigger] v[i]).id@ == id
}

/// No two rules share an id.
pub open spec fn rule_ids_unique(v: Seq<FirewallRule>) -> bool {
    forall|i: int, j: int| 0 <= i < v.len() && 0 <= j < v.len() && i != j ==> (#[trigger] v[i]).id@ != (#[trigger] v[j]).id@
}

/// Commands that install (`add`) or remove `rule` in its container's chain;
/// installing first creates the chain.
pub open spec fn apply_lines(rule: FirewallRule, add: bool) -> Seq<Seq<Seq<char>>> {
    let chain = chain_of(upper_of(rule.container_id@));
    if add {
        seq![seq!["-N"@, chain], rule_args_of(rule, true, chain)]
    } else {
        seq![rule_args_of(rule, false, chain)]
    }
}

/// Commands that delete, in order, every enabled rule of `v` that belongs to `cid`.
pub open spec fn removal_lines(v: Seq<FirewallRule>, cid: Seq<char>) -> Seq<Seq<Seq<char>>>
    decreases v.len(),
{
    if v.len() == 0 {
        Seq::empty()
    } else {
        let r = v.last();
        removal_lines(v.drop_last(), cid) + if r.container_id@ == cid && r.enabled {
            apply_lines(r, false)
        } else {
            Seq::empty()
        }
    }
}

/// The rules of `v` that do not belong to `cid`, in order.
pub open spec fn rules_not_of(v: Seq<FirewallRule>, cid: Seq<char>) -> Seq<FirewallRule> {
    v.filter(|r: FirewallRule| r.container_id@ != cid)
}

/// Commands that install (`add`) or remove `rule` in its container's chain.
pub fn apply_commands(rule: &FirewallRule, add: bool) -> (r: Vec<Vec<String>>)
    ensures
        lines(r@) == apply_lines(*rule, add),
{
    let chain = chain_name(rule.container_id.as_str());
    let mut r: Vec<Vec<String>> = Vec::new();
    if add {
        push_line(&mut r, new_chain_line(chain.as_str()));
    }
    push_line(&mut r, iptables_rule_args(rule, add, chain.as_str()));
    assert(lines(r@) =~= apply_lines(*rule, add));
    r
}

/// The rule set of every container.
pub struct FirewallManager {
    rules: Vec<FirewallRule>,
}

impl FirewallManager {
    /// The rules, in insertion order.
    pub closed spec fn records(&self) -> Seq<FirewallRule> {
        self.rules@
    }

    /// No two rules share an id.
    pub open spec fn wf(&self) -> bool {
        rule_ids_unique(self.records())
    }

    /// An empty rule set.
    pub fn new() -> (r: Self)
        ensures
            r.wf(),
            r.records().len() == 0,
    {
        FirewallManager { rules: Vec::new() }
    }

    /// Position of the rule with id `id`.
    fn find(&self, id: &str) -> (r: Option<usize>)
        requires
            self.wf(),
        ensures
            r.is_none() == !has_rule(self.records(), id@),
            r.is_some() ==> r.unwrap() < self.records().len() && r.unwrap() == rule_index(self.records(), id@),
    {
        let mut i: usize = 0;
        while i < self.rules.len()
            invariant
                i <= self.rules@.len(),
                self.wf(),
                forall|k: int| 0 <= k < i ==> (#[trigger] self.rules@[k]).id@ != id@,
            decreases self.rules.len() - i,
        {
            if same_text(self.rules[i].id.as_str(), id) {
                proof {
                    assert(has_rule(self.records(), id@));
                    let j = rule_index(self.records(), id@);
                    assert(self.records()[j].id@ == id@);
                }
                return Some(i);
            }
            i = i + 1;
        }
        None
    }

    /// Adds `rule`; returns the commands that install it when it is enabled.
    /// Fails with `Invalid` when the rule is ill-formed and with `Conflict`
    /// when its id is taken.
    pub fn add_rule(&mut self, rule: FirewallRule) -> (r: Result<Vec<Vec<String>>, FirewallError>)
        requires
            old(self).wf(),
        ensures
            final(self).wf(),
            rule_error(rule).is_some() ==> r == Err::<Vec<Vec<String>>, FirewallError>(FirewallError::Invalid(rule_error(rule).unwrap()))
                && final(self).records() == old(self).records(),
            rule_error(rule).is_none() && has_rule(old(self).records(), rule.id@) ==> r == Err::<Vec<Vec<String>>, FirewallError>(
                FirewallError::Conflict,
            ) && final(self).records() == old(self).records(),
            rule_error(rule).is_none() && !has_rule(old(self).records(), rule.id@) ==> {
                &&& r is Ok
                &&& final(self).records() == old(self).records().push(rule)
                &&& lines(r->Ok_0@) == if rule.enabled { apply_lines(rule, true) } else { Seq::empty() }
            },
    {
        match validate_rule(&rule) {
            Err(e) => return Err(FirewallError::Invalid(e)),
            Ok(()) => {},
        }
        if self.find(rule.id.as_str()).is_some() {
            return Err(FirewallError::Conflict);
        }
        let cmds = if rule.enabled {
            apply_commands(&rule, true)
        } else {
            let v: Vec<Vec<String>> = Vec::new();
            assert(lines(v@) =~= Seq::<Seq<Seq<char>>>::empty());
            v
        };
        let ghost before = self.rules@;
        self.rules.push(rule);
        proof {
            assert forall|a: int, b: int| 0 <= a < self.rules@.len() && 0 <= b < self.rules@.len() && a != b
                implies (#[trigger] self.rules@[a]).id@ != (#[trigger] self.rules@[b]).id@ by {
                if a < before.len() { assert(before[a] == self.rules@[a]); }
                if b < before.len() { assert(before[b] == self.rules@[b]); }
            }
        }
        Ok(cmds)
    }

    /// Removes the rule; returns the commands that delete it when it was enabled.
    pub fn remove_rule(&mut self, rule_id: &str) -> (r: Result<Vec<Vec<String>>, FirewallError>)
        requires
            old(self).wf(),
        ensures
            final(self).wf(),
            !has_rule(old(self).records(), rule_id@) ==> r == Err::<Vec<Vec<String>>, FirewallError>(FirewallError::NotFound)
                && final(self).records() == old(self).records(),
            has_rule(old(self).records(), rule_id@) ==> {
                let i = rule_index(old(self).records(), rule_id@);
                let rule = old(self).records()[i];
                &&& r is Ok
                &&& final(self).records() == old(self).records().remove(i)
                &&& lines(r->Ok_0@) == if rule.enabled { apply_lines(rule, false) } else { Seq::empty() }
            },
    {
        let i = match self.find(rule_id) {
            Some(i) => i,
            None => return Err(FirewallError::NotFound),
        };
        let ghost before = self.rules@;
        let rule = self.rules.remove(i);
        proof {
            assert forall|a: int, b: int| 0 <= a < self.rules@.len() && 0 <= b < self.rules@.len() && a != b
                implies (#[trigger] self.rules@[a]).id@ != (#[trigger] self.rules@[b]).id@ by {
                let a2 = if a < i { a } else { a + 1 };
                let b2 = if b < i { b } else { b + 1 };
                assert(before[a2] == self.rules@[a]);
                assert(before[b2] == self.rules@[b]);
            }
        }
        if rule.enabled {
            Ok(apply_commands(&rule, false))
        } else {
            let v: Vec<Vec<String>> = Vec::new();
            assert(lines(v@) =~= Seq::<Seq<Seq<char>>>::empty());
            Ok(v)
        }
    }

    /// Enables or disables the rule; returns the commands that install or
    /// delete it, none when it already was in that state.
    pub fn toggle_rule(&mut self, rule_id: &str, enabled: bool) -> (r: Result<Vec<Vec<String>>, FirewallError>)
        requires
            old(self).wf(),
        ensures
            final(self).wf(),
            !has_rule(old(self).records(), rule_id@) ==> r == Err::<Vec<Vec<String>>, FirewallError>(FirewallError::NotFound)
                && final(self).records() == old(self).records(),
            has_rule(old(self).records(), rule_id@) ==> {
                let i = rule_index(old(self).records(), rule_id@);
                let rule = old(self).records()[i];
                &&& r is Ok
                &&& final(self).records() == old(self).records().update(i, FirewallRule { enabled, ..rule })
                &&& lines(r->Ok_0@) == if rule.enabled == enabled { Seq::empty() } else { apply_lines(rule, enabled) }
            },
    {
        let i = match self.find(rule_id) {
            Some(i) => i,
            None => return Err(FirewallError::NotFound),
        };
        let ghost before = self.rules@;
        let mut rule = self.rules[i].clone();
        let cmds = if rule.enabled == enabled {
            let v: Vec<Vec<String>> = Vec::new();
            assert(lines(v@) =~= Seq::<Seq<Seq<char>>>::empty());
            v
        } else {
            apply_commands(&rule, enabled)
        };
        rule.enabled = enabled;
        self.rules.set(i, rule);
        proof {
            assert forall|a: int, b: int| 0 <= a < self.rules@.len() && 0 <= b < self.rules@.len() && a != b
                implies (#[trigger] self.rules@[a]).id@ != (#[trigger] self.rules@[b]).id@ by {
                assert(before[a].id@ == self.rules@[a].id@);
                assert(before[b].id@ == self.rules@[b].id@);
            }
        }
        Ok(cmds)
    }

    /// Copies of the rules that belong to `container_id`, in order.
    pub fn get_container_rules(&self, container_id: &str) -> (r: Vec<FirewallRule>)
        ensures
            r@ == self.records().filter(|x: FirewallRule| x.container_id@ == container_id@),
    {
        let ghost pred = |x: FirewallRule| x.container_id@ == container_id@;
        let mut r: Vec<FirewallRule> = Vec::new();
        let mut i: usize = 0;
        while i < self.rules.len()
            invariant
                i <= self.rules@.len(),
                pred == (|x: FirewallRule| x.container_id@ == container_id@),
                r@ == self.rules@.subrange(0, i as int).filter(pred),
            decreases self.rules.len() - i,
        {
            proof {
                reveal(Seq::filter);
                assert(self.rules@.subrange(0, i + 1).drop_last() =~= self.rules@.subrange(0, i as int));
            }
            if same_text(self.rules[i].container_id.as_str(), container_id) {
                r.push(self.rules[i].clone());
            }
            i = i + 1;
        }
        assert(self.rules@.subrange(0, self.rules@.len() as int) =~= self.rules@);
        r
    }

    /// Removes every rule of `container_id`. Returns the commands that
    /// delete its enabled rules, then flush and delete its chain.
    pub fn cleanup_container_rules(&mut self, container_id: &str) -> (r: Vec<Vec<String>>)
        requires
            old(self).wf(),
        ensures
            final(self).wf(),
            final(self).records() == rules_not_of(old(self).records(), container_id@),
            forall|k: int| 0 <= k < final(self).records().len() ==> (#[trigger] final(self).records()[k]).container_id@ != container_id@,
            lines(r@) == removal_lines(old(self).records(), container_id@) + seq![
                seq!["-F"@, chain_of(upper_of(container_id@))],
                seq!["-X"@, chain_of(upper_of(container_id@))]
            ],
    {
        let ghost old_rules = self.rules@;
        let mut kept: Vec<FirewallRule> = Vec::new();
        let mut cmds: Vec<Vec<String>> = Vec::new();
        let mut i: usize = 0;
        while i < self.rules.len()
            invariant
                i <= self.rules@.len(),
                self.rules@ == old_rules,
                rule_ids_unique(old_rules),
                kept@ == rules_not_of(old_rules.subrange(0, i as int), container_id@),
                forall|k: int| 0 <= k < kept@.len() ==> exists|j: int| 0 <= j < i && #[trigger] kept@[k] == old_rules[j],
                rule_ids_unique(kept@),
                lines(cmds@) == removal_lines(old_rules.subrange(0, i as int), container_id@),
            decreases self.rules.len() - i,
        {
            proof {
                reveal(Seq::filter);
                assert(old_rules.subrange(0, i + 1).drop_last() =~= old_rules.subrange(0, i as int));
                assert(old_rules.subrange(0, i + 1).last() == old_rules[i as int]);
            }
            if same_text(self.rules[i].container_id.as_str(), container_id) {
                if self.rules[i].enabled {
                    append_lines(&mut cmds, apply_commands(&self.rules[i], false));
                } else {
                    assert(removal_lines(old_rules.subrange(0, i + 1), container_id@) =~= removal_lines(old_rules.subrange(0, i as int), container_id@));
                }
            } else {
                let ghost before = kept@;
                kept.push(self.rules[i].clone());
                proof {
                    assert(removal_lines(old_rules.subrange(0, i + 1), container_id@) =~= removal_lines(old_rules.subrange(0, i as int), container_id@));
                    assert forall|k: int| 0 <= k < kept@.len() implies exists|j: int| 0 <= j < i + 1 && #[trigger] kept@[k] == old_rules[j] by {
                        if k < before.len() {
                            assert(before[k] == kept@[k]);
                        } else {
                            assert(kept@[k] == old_rules[i as int]);
                        }
                    }
                    assert forall|a: int, b: int| 0 <= a < kept@.len() && 0 <= b < kept@.len() && a != b
                        implies (#[trigger] kept@[a]).id@ != (#[trigger] kept@[b]).id@ by {
                        if a < before.len() && b < before.len() {
                            assert(before[a] == kept@[a]);
                            assert(before[b] == kept@[b]);
                        } else if a < before.len() {
                            assert(before[a] == kept@[a]);
                            let j = choose|j: int| 0 <= j < i && #[trigger] before[a] == old_rules[j];
                            assert(kept@[b] == old_rules[i as int]);
                        } else {
                            assert(before[b] == kept@[b]);
                            let j = choose|j: int| 0 <= j < i && #[trigger] before[b] == old_rules[j];
                            assert(kept@[a] == old_rules[i as int]);
                        }
                    }
                }
            }
            i = i + 1;
        }
        proof {
            assert(old_rules.subrange(0, old_rules.len() as int) =~= old_rules);
        }
        self.rules = kept;
        let chain = chain_name(container_id);
        push_line(&mut cmds, pair(String::from_str("-F"), chain.clone()));
        push_line(&mut cmds, pair(String::from_str("-X"), chain));
        proof {
            let pred = |r: FirewallRule| r.container_id@ != container_id@;
            assert forall|k: int| 0 <= k < self.rules@.len() implies (#[trigger] self.rules@[k]).container_id@ != container_id@ by {
                assert(pred(old_rules.filter(pred)[k]));
            }
            assert(lines(cmds@) =~= removal_lines(old_rules, container_id@) + seq![
                seq!["-F"@, chain_of(upper_of(container_id@))],
                seq!["-X"@, chain_of(upper_of(container_id@))]
            ]);
        }
        cmds
    }
}

/// Adding a valid rule, disabling it, enabling it again and removing it
/// succeeds at every step and leaves the rule set as it was.
pub proof fn law_add_toggle_remove(v0: Seq<FirewallRule>, rule: FirewallRule)
    requires
        rule_ids_unique(v0),
        rule_error(rule).is_none(),
        !has_rule(v0, rule.id@),
    ensures
        ({
            let v1 = v0.push(rule);
            let i1 = rule_index(v1, rule.id@);
            let v2 = v1.update(i1, FirewallRule { enabled: false, ..v1[i1] });
            let i2 = rule_index(v2, rule.id@);
            let v3 = v2.update(i2, FirewallRule { enabled: true, ..v2[i2] });
            let i3 = rule_index(v3, rule.id@);
            &&& has_rule(v1, rule.id@)
            &&& has_rule(v2, rule.id@)
            &&& has_rule(v3, rule.id@)
            &&& v3.remove(i3) == v0
        }),
{
    let n = v0.len() as int;
    let v1 = v0.push(rule);
    assert(v1[n].id@ == rule.id@);
    assert(has_rule(v1, rule.id@));
    let i1 = rule_index(v1, rule.id@);
    assert(i1 == n) by {
        if i1 != n {
            assert(v0[i1] == v1[i1]);
        }
    }
    let v2 = v1.update(i1, FirewallRule { enabled: false, ..v1[i1] });
    assert(v2[n].id@ == rule.id@);
    assert(has_rule(v2, rule.id@));
    let i2 = rule_index(v2, rule.id@);
    assert(i2 == n) by {
        if i2 != n {
            assert(v0[i2] == v2[i2]);
        }
    }
    let v3 = v2.update(i2, FirewallRule { enabled: true, ..v2[i2] });
    assert(v3[n].id@ == rule.id@);
    assert(has_rule(v3, rule.id@));
    let i3 = rule_index(v3, rule.id@);
    assert(i3 == n) by {
        if i3 != n {
            assert(v0[i3] == v3[i3]);
        }
    }
    assert(v3.remove(i3) =~= v0);
}

} // verus!
