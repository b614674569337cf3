//! Planning the packet-filter state for one source: the named set object,
//! the swap-based atomic bulk replace, and the idempotent filter rules.
//!
//! Everything here computes: listings of existing objects and rules come in
//! as text, and commands, argument lists and set-management scripts go out,
//! pinned exactly by their contracts. Running the external tools and feeding
//! them these values is the caller's part.

use vstd::prelude::*;
use rand::Rng;
use crate::net::{append_ipv4, ipv4_text, NetworkPrefix, NetworkSet};
use crate::settings::{target_text, IptablesTarget};
use crate::text::{append_dec, contains_sub, dec, has_sub, lines_of, split_lines, str_eq,
    str_views, string_views};

verus! {

/// A character rand's `Alphanumeric` distribution can produce.
pub open spec fn is_alnum(c: char) -> bool {
    ('a' <= c && c <= 'z') || ('A' <= c && c <= 'Z') || ('0' <= c && c <= '9')
}

/// Relies on rand's `Alphanumeric` distribution: uniformly sampled ASCII
/// letters and digits. Nothing else is assumed of any outcome.
#[verifier::external_body]
pub(crate) fn random_name() -> (r: String)
    ensures
        r@.len() == 20,
        forall|i: int| 0 <= i < 20 ==> is_alnum(r@[i]),
{
    rand::thread_rng().sample_iter(&rand::distributions::Alphanumeric).take(20).map(
        char::from,
    ).collect()
}

/// The text of the rule this engine keeps in a chain, as the rule-listing
/// command reports it: match TCP traffic to the well-known ports against the
/// named set, jump to the configured target.
pub open spec fn rule_text(chain: Seq<char>, name: Seq<char>, t: IptablesTarget) -> Seq<char> {
    "-A "@ + chain + " -p tcp -m multiport --dports 22,80,443 -m set --match-set "@ + name
        + " src -j "@ + target_text(t)
}

/// The arguments shared by rule insertion and deletion, after the command
/// flag: the chain, the match, and the jump target.
pub open spec fn rule_tail_args(chain: Seq<char>, name: Seq<char>, t: IptablesTarget) -> Seq<
    Seq<char>,
> {
    seq![
        chain,
        "-p"@,
        "tcp"@,
        "-m"@,
        "multiport"@,
        "--dports"@,
        "22,80,443"@,
        "-m"@,
        "set"@,
        "--match-set"@,
        name,
        "src"@,
        "-j"@,
    ] + target_args(t)
}

/// The trailing arguments that select a target.
pub open spec fn target_args(t: IptablesTarget) -> Seq<Seq<char>> {
    match t {
        IptablesTarget::Drop => seq!["DROP"@],
        IptablesTarget::Reject => seq!["REJECT"@],
        IptablesTarget::Tarpit => seq!["TARPIT"@, "--tarpit"@],
    }
}

/// The membership of a named set object in the packet filter, for one
/// source: the live identity with its planning operations. Truth lives in
/// the kernel; this holds only the names and paths the plans are built from.
pub struct IpSet {
    name: String,
    ipset_path: String,
    iptables_path: String,
    target: IptablesTarget,
}

impl IpSet {
    /// The name of the set object: the product namespace prefix joined with
    /// the source name, so equal sources always find their own object and
    /// distinct sources never collide.
    pub closed spec fn spec_name(&self) -> Seq<char> {
        self.name@
    }

    pub closed spec fn spec_target(&self) -> IptablesTarget {
        self.target
    }

    pub closed spec fn spec_ipset_path(&self) -> Seq<char> {
        self.ipset_path@
    }

    pub closed spec fn spec_iptables_path(&self) -> Seq<char> {
        self.iptables_path@
    }

    pub fn new(name: &str, target: IptablesTarget, ipset_path: String, iptables_path: String) -> (r:
        Self)
        ensures
            r.spec_name() == "ipwall-"@ + name@,
            r.spec_target() == target,
            r.spec_ipset_path() == ipset_path@,
            r.spec_iptables_path() == iptables_path@,
    {
        let mut full = String::from_str("ipwall-");
        full.append(name);
        IpSet { name: full, ipset_path, iptables_path, target }
    }

    pub fn name(&self) -> (r: &str)
        ensures
            r@ == self.spec_name(),
    {
        self.name.as_str()
    }

    pub fn ipset_path(&self) -> (r: &str)
        ensures
            r@ == self.spec_ipset_path(),
    {
        self.ipset_path.as_str()
    }

    pub fn iptables_path(&self) -> (r: &str)
        ensures
            r@ == self.spec_iptables_path(),
    {
        self.iptables_path.as_str()
    }

    /// Whether the named set object is absent from a listing of set names,
    /// one per line.
    pub fn needs_create(&self, list_output: &str) -> (r: bool)
        ensures
            r == !split_lines(list_output@).contains(self.spec_name()),
    {
        let lines = lines_of(list_output);
        let n = lines.len();
        let mut i: usize = 0;
        while i < n
            invariant
                i <= n,
                n == lines@.len(),
                str_views(lines@) == split_lines(list_output@),
                forall|k: int| 0 <= k < i ==> str_views(lines@)[k] != self.spec_name(),
            decreases n - i,
        {
            if str_eq(lines[i], self.name.as_str()) {
                proof {
                    assert(split_lines(list_output@)[i as int] == self.spec_name());
                }
                return false;
            }
            proof {
                assert(str_views(lines@)[i as int] == lines@[i as int]@);
            }
            i = i + 1;
        }
        proof {
            assert forall|k: int|
                0 <= k < split_lines(list_output@).len() implies split_lines(list_output@)[k]
                != self.spec_name() by {
                assert(str_views(lines@)[k] != self.spec_name());
            }
        }
        true
    }

    /// The arguments that create the named set object (kind: hash of
    /// network prefixes).
    pub fn create_args(&self) -> (r: Vec<String>)
        ensures
            string_views(r@) == seq!["create"@, self.spec_name(), "hash:net"@],
    {
        let v = vec![String::from_str("create"), self.name.clone(), String::from_str("hash:net")];
        proof {
            assert(string_views(v@) =~~= seq!["create"@, self.spec_name(), "hash:net"@]);
        }
        v
    }

    /// The arguments that destroy the named set object.
    pub fn destroy_args(&self) -> (r: Vec<String>)
        ensures
            string_views(r@) == seq!["destroy"@, self.spec_name()],
    {
        let v = vec![String::from_str("destroy"), self.name.clone()];
        proof {
            assert(string_views(v@) =~~= seq!["destroy"@, self.spec_name()]);
        }
        v
    }

    /// The rule as the rule-listing command would report it for a chain.
    pub fn rule_string(&self, chain: &str) -> (r: String)
        ensures
            r@ == rule_text(chain@, self.spec_name(), self.spec_target()),
    {
        let mut s = String::from_str("-A ");
        s.append(chain);
        s.append(" -p tcp -m multiport --dports 22,80,443 -m set --match-set ");
        s.append(self.name.as_str());
        s.append(" src -j ");
        let t = self.target.to_text();
        s.append(t.as_str());
        proof {
            assert(s@ =~= rule_text(chain@, self.spec_name(), self.spec_target()));
        }
        s
    }

    /// Whether a rule listing already holds this source's rule for a chain.
    pub fn has_rule(&self, rules_output: &str, chain: &str) -> (r: bool)
        ensures
            r == has_sub(rules_output@, rule_text(chain@, self.spec_name(), self.spec_target())),
    {
        let rule = self.rule_string(chain);
        contains_sub(rules_output, rule.as_str())
    }

    fn tail_args(&self, chain: &str) -> (r: Vec<String>)
        ensures
            string_views(r@) == rule_tail_args(chain@, self.spec_name(), self.spec_target()),
    {
        let mut v: Vec<String> = Vec::new();
        v.push(String::from_str(chain));
        v.push(String::from_str("-p"));
        v.push(String::from_str("tcp"));
        v.push(String::from_str("-m"));
        v.push(String::from_str("multiport"));
        v.push(String::from_str("--dports"));
        v.push(String::from_str("22,80,443"));
        v.push(String::from_str("-m"));
        v.push(String::from_str("set"));
        v.push(String::from_str("--match-set"));
        v.push(self.name.clone());
        v.push(String::from_str("src"));
        v.push(String::from_str("-j"));
        let mut t = self.target.to_args();
        proof {
            assert(string_views(t@) =~~= target_args(self.spec_target()));
        }
        v.append(&mut t);
        proof {
            assert(string_views(v@) =~~= rule_tail_args(
                chain@,
                self.spec_name(),
                self.spec_target(),
            ));
        }
        v
    }

    /// The arguments that insert this source's rule at the head of a chain.
    pub fn insert_rule_args(&self, chain: &str) -> (r: Vec<String>)
        ensures
            string_views(r@) == seq!["-I"@] + rule_tail_args(
                chain@,
                self.spec_name(),
                self.spec_target(),
            ),
    {
        let mut v: Vec<String> = Vec::new();
        v.push(String::from_str("-I"));
        let mut t = self.tail_args(chain);
        v.append(&mut t);
        proof {
            assert(string_views(v@) =~~= seq!["-I"@] + rule_tail_args(
                chain@,
                self.spec_name(),
                self.spec_target(),
            ));
        }
        v
    }

    /// The arguments that delete one copy of this source's rule from a
    /// chain; issued repeatedly, the first failing delete means no copy is
    /// left, which ends an uninstall without error.
    pub fn delete_rule_args(&self, chain: &str) -> (r: Vec<String>)
        ensures
            string_views(r@) == seq!["-D"@] + rule_tail_args(
                chain@,
                self.spec_name(),
                self.spec_target(),
            ),
    {
        let mut v: Vec<String> = Vec::new();
        v.push(String::from_str("-D"));
        let mut t = self.tail_args(chain);
        v.append(&mut t);
        proof {
            assert(string_views(v@) =~~= seq!["-D"@] + rule_tail_args(
                chain@,
                self.spec_name(),
                self.spec_target(),
            ));
        }
        v
    }

    /// The swap-based bulk-replace script: create a temporary set sized to
    /// the membership plus slack, add every IPv4 member, atomically swap the
    /// temporary with the live set, destroy the leftover. The caller must
    /// skip the call entirely when the set is empty.
    pub fn restore_script(&self, temp: &str, ips: &NetworkSet) -> (r: String)
        requires
            ips.prefixes().len() + 10000 <= usize::MAX,
        ensures
            r@ == restore_text(
                self.spec_name(),
                temp@,
                ips.prefixes(),
                (ips.prefixes().len() + 10000) as nat,
            ),
    {
        let mut s = String::from_str("create ");
        s.append(temp);
        s.append(" hash:net maxelem ");
        let n = ips.len();
        append_dec(&mut s, (n + 10000) as u64);
        s.append("\n");
        let ghost head = "create "@ + temp@ + " hash:net maxelem "@ + dec(
            (ips.prefixes().len() + 10000) as nat,
        ) + "\n"@;
        proof {
            assert(s@ =~= head);
            assert(ips.prefixes().take(0) =~= Seq::<NetworkPrefix>::empty());
        }
        let mut i: usize = 0;
        while i < n
            invariant
                i <= n,
                n == ips.prefixes().len(),
                s@ == head + add_lines(temp@, ips.prefixes().take(i as int)),
            decreases n - i,
        {
            let p = ips.get(i);
            match *p {
                NetworkPrefix::V4 { addr, prefix } => {
                    s.append("add ");
                    s.append(temp);
                    s.append(" ");
                    append_ipv4(&mut s, addr, prefix);
                    s.append("\n");
                },
                NetworkPrefix::V6 { .. } => {},
            }
            proof {
                assert(ips.prefixes().take(i as int + 1).drop_last() =~= ips.prefixes().take(
                    i as int,
                ));
                assert(ips.prefixes().take(i as int + 1).last() == ips.prefixes()[i as int]);
                assert(s@ =~= head + add_lines(temp@, ips.prefixes().take(i as int + 1)));
            }
            i = i + 1;
        }
        proof {
            assert(ips.prefixes().take(n as int) =~= ips.prefixes());
        }
        s.append("swap ");
        s.append(temp);
        s.append(" ");
        s.append(self.name.as_str());
        s.append("\n");
        s.append("destroy ");
        s.append(temp);
        s.append("\n");
        proof {
            assert(s@ =~= restore_text(
                self.spec_name(),
                temp@,
                ips.prefixes(),
                (ips.prefixes().len() + 10000) as nat,
            ));
        }
        s
    }

    /// The bulk-replace script under a fresh random temporary name, so a
    /// concurrent run or a leftover from a crashed one is never collided
    /// with.
    pub fn block_script(&self, ips: &NetworkSet) -> (r: String)
        requires
            ips.prefixes().len() + 10000 <= usize::MAX,
        ensures
            (exists|temp: Seq<char>|
                temp.len() == 20 && (forall|i: int| 0 <= i < 20 ==> is_alnum(temp[i])) && r@
                    == #[trigger] restore_text(
                    self.spec_name(),
                    temp,
                    ips.prefixes(),
                    (ips.prefixes().len() + 10000) as nat,
                )),
    {
        let temp = random_name();
        let r = self.restore_script(temp.as_str(), ips);
        proof {
            let t = temp@;
            assert(t.len() == 20 && (forall|i: int| 0 <= i < 20 ==> is_alnum(t[i])) && r@
                == restore_text(
                self.spec_name(),
                t,
                ips.prefixes(),
                (ips.prefixes().len() + 10000) as nat,
            ));
        }
        r
    }
}

/// One add line of the bulk-load script; members that are not IPv4 are out
/// of scope for this feed format and contribute nothing.
pub open spec fn add_line(set: Seq<char>, p: NetworkPrefix) -> Seq<char> {
    match p {
        NetworkPrefix::V4 { addr, prefix } => "add "@ + set + " "@ + ipv4_text(addr, prefix)
            + "\n"@,
        NetworkPrefix::V6 { .. } => Seq::empty(),
    }
}

/// The add lines for a membership, in order.
pub open spec fn add_lines(set: Seq<char>, items: Seq<NetworkPrefix>) -> Seq<char>
    decreases items.len(),
{
    if items.len() == 0 {
        Seq::empty()
    } else {
        add_lines(set, items.drop_last()) + add_line(set, items.last())
    }
}

/// The whole bulk-replace script. Its effect on the set-object store is
/// `run_restore`, and `lemma_atomic_replace` states what that leaves behind.
pub open spec fn restore_text(
    live: Seq<char>,
    temp: Seq<char>,
    items: Seq<NetworkPrefix>,
    maxelem: nat,
) -> Seq<char> {
    "create "@ + temp + " hash:net maxelem "@ + dec(maxelem) + "\n"@ + add_lines(temp, items)
        + "swap "@ + temp + " "@ + live + "\n"@ + "destroy "@ + temp + "\n"@
}

/// A model of the packet filter's set-object store: each named set object's
/// membership. The four script operations act on it as the set-management
/// tool documents them.
pub type SetStore = Map<Seq<char>, Set<NetworkPrefix>>;

pub open spec fn apply_create(st: SetStore, name: Seq<char>) -> SetStore {
    st.insert(name, Set::empty())
}

pub open spec fn apply_add(st: SetStore, name: Seq<char>, p: NetworkPrefix) -> SetStore {
    st.insert(name, st[name].insert(p))
}

/// The atomic exchange of two objects' memberships: a single operation, with
/// no intermediate state.
pub open spec fn apply_swap(st: SetStore, a: Seq<char>, b: Seq<char>) -> SetStore {
    st.insert(a, st[b]).insert(b, st[a])
}

pub open spec fn apply_destroy(st: SetStore, name: Seq<char>) -> SetStore {
    st.remove(name)
}

/// The store after the add lines of the script have filled the temporary
/// set, one IPv4 member each, in order.
pub open spec fn fill_temp(st: SetStore, temp: Seq<char>, items: Seq<NetworkPrefix>) -> SetStore
    decreases items.len(),
{
    if items.len() == 0 {
        st
    } else {
        let prev = fill_temp(st, temp, items.drop_last());
        if items.last() is V4 {
            apply_add(prev, temp, items.last())
        } else {
            prev
        }
    }
}

/// The IPv4 members of a membership listing.
pub open spec fn v4_members(items: Seq<NetworkPrefix>) -> Set<NetworkPrefix>
    decreases items.len(),
{
    if items.len() == 0 {
        Set::empty()
    } else if items.last() is V4 {
        v4_members(items.drop_last()).insert(items.last())
    } else {
        v4_members(items.drop_last())
    }
}

/// The whole bulk-replace script run against the store: create the
/// temporary, fill it, swap it with the live object, destroy the leftover.
pub open spec fn run_restore(
    st: SetStore,
    live: Seq<char>,
    temp: Seq<char>,
    items: Seq<NetworkPrefix>,
) -> SetStore {
    apply_destroy(apply_swap(fill_temp(apply_create(st, temp), temp, items), temp, live), temp)
}

proof fn lemma_fill_temp(st: SetStore, temp: Seq<char>, items: Seq<NetworkPrefix>)
    requires
        st.contains_key(temp),
    ensures
        fill_temp(st, temp, items).dom() == st.dom(),
        fill_temp(st, temp, items)[temp] == st[temp].union(v4_members(items)),
        forall|k: Seq<char>| k != temp && st.contains_key(k) ==> fill_temp(st, temp, items)[k]
            == st[k],
    decreases items.len(),
{
    if items.len() == 0 {
        assert(st[temp].union(v4_members(items)) =~= st[temp]);
    } else {
        lemma_fill_temp(st, temp, items.drop_last());
        let prev = fill_temp(st, temp, items.drop_last());
        if items.last() is V4 {
            assert(apply_add(prev, temp, items.last()).dom() =~= prev.dom());
            assert(prev[temp].insert(items.last()) =~= st[temp].union(v4_members(items)));
        }
    }
}

/// Atomic replace: after the script runs against a store holding the live
/// object, the live object's membership is exactly the IPv4 members of the
/// new set and the temporary is gone; and until the single atomic swap the
/// live object's membership is untouched, so at no point on the way is it
/// observed empty where it was non-empty before.
pub proof fn lemma_atomic_replace(
    st: SetStore,
    live: Seq<char>,
    temp: Seq<char>,
    items: Seq<NetworkPrefix>,
)
    requires
        st.contains_key(live),
        live != temp,
    ensures
        fill_temp(apply_create(st, temp), temp, items)[live] == st[live],
        run_restore(st, live, temp, items).contains_key(live),
        run_restore(st, live, temp, items)[live] == v4_members(items),
        !run_restore(st, live, temp, items).contains_key(temp),
        forall|k: Seq<char>| k != temp && st.contains_key(k) && k != live ==> run_restore(
            st,
            live,
            temp,
            items,
        )[k] == st[k],
{
    let created = apply_create(st, temp);
    lemma_fill_temp(created, temp, items);
    let filled = fill_temp(created, temp, items);
    assert(filled[temp] =~= v4_members(items));
    assert(created.contains_key(live) && created[live] == st[live]);
    assert(filled[live] == created[live]);
    assert forall|k: Seq<char>|
        k != temp && st.contains_key(k) && k != live implies run_restore(st, live, temp, items)[k]
        == st[k] by {
        assert(created.contains_key(k) && created[k] == st[k]);
        assert(filled[k] == created[k]);
    }
}

/// How many copies of a rule a chain holds.
pub open spec fn rule_count(rules: Seq<Seq<char>>, rule: Seq<char>) -> nat
    decreases rules.len(),
{
    if rules.len() == 0 {
        0
    } else {
        (if rules[0] == rule {
            1nat
        } else {
            0nat
        }) + rule_count(rules.skip(1), rule)
    }
}

/// One install round on one chain: insert the rule at the head only where no
/// equal rule is present, never duplicating.
pub open spec fn install_step(rules: Seq<Seq<char>>, rule: Seq<char>) -> Seq<Seq<char>> {
    if rules.contains(rule) {
        rules
    } else {
        seq![rule] + rules
    }
}

/// What an uninstall leaves in one chain: every copy of the rule deleted,
/// everything else untouched.
pub open spec fn uninstall_result(rules: Seq<Seq<char>>, rule: Seq<char>) -> Seq<Seq<char>>
    decreases rules.len(),
{
    if rules.len() == 0 {
        rules
    } else if rules[0] == rule {
        uninstall_result(rules.skip(1), rule)
    } else {
        seq![rules[0]] + uninstall_result(rules.skip(1), rule)
    }
}

pub proof fn lemma_count_zero_iff_absent(rules: Seq<Seq<char>>, rule: Seq<char>)
    ensures
        rule_count(rules, rule) == 0 <==> !rules.contains(rule),
    decreases rules.len(),
{
    if rules.len() == 0 {
    } else {
        lemma_count_zero_iff_absent(rules.skip(1), rule);
        if rules[0] == rule {
            assert(rules.contains(rule));
        } else {
            assert forall|i: int|
                0 <= i < rules.len() && rules[i] == rule implies rules.skip(1).contains(rule) by {
                assert(rules.skip(1)[i - 1] == rules[i]);
            }
            assert forall|i: int|
                0 <= i < rules.skip(1).len() && rules.skip(1)[i] == rule implies rules.contains(
                rule,
            ) by {
                assert(rules[i + 1] == rules.skip(1)[i]);
            }
        }
    }
}

/// Idempotent install: one round inserts exactly one matching rule where
/// none was present, and a second round changes nothing.
pub proof fn lemma_install_idempotent(rules: Seq<Seq<char>>, rule: Seq<char>)
    ensures
        install_step(install_step(rules, rule), rule) == install_step(rules, rule),
        !rules.contains(rule) ==> rule_count(install_step(rules, rule), rule) == rule_count(
            rules,
            rule,
        ) + 1,
        rules.contains(rule) ==> install_step(rules, rule) == rules,
{
    if !rules.contains(rule) {
        let stepped = seq![rule] + rules;
        assert(stepped[0] == rule);
        assert(stepped.contains(rule));
        assert(stepped.skip(1) =~~= rules);
    }
}

/// Idempotent uninstall: deleting until the delete fails leaves no copy of
/// the rule; on a chain with no matching rule it deletes nothing, and that
/// is success, not an error.
pub proof fn lemma_uninstall_idempotent(rules: Seq<Seq<char>>, rule: Seq<char>)
    ensures
        rule_count(uninstall_result(rules, rule), rule) == 0,
        rule_count(rules, rule) == 0 ==> uninstall_result(rules, rule) == rules,
    decreases rules.len(),
{
    if rules.len() == 0 {
    } else {
        lemma_uninstall_idempotent(rules.skip(1), rule);
        if rules[0] == rule {
        } else {
            let rest = uninstall_result(rules.skip(1), rule);
            let whole = seq![rules[0]] + rest;
            assert(whole.skip(1) =~~= rest);
            if rule_count(rules, rule) == 0 {
                assert(whole =~~= rules);
            }
        }
    }
}

} // verus!
