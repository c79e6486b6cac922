//! The checks that come with the crate.

pub mod files;
pub mod firewall;
pub mod network;
pub mod policy;
pub mod ssh;
pub mod system;

use crate::checks::files::SuidFilesCheck;
use crate::checks::firewall::{FirewallPresenceCheck, NftablesRulesCheck};
use crate::checks::network::ListeningPortsCheck;
use crate::checks::policy::{PasswordPolicyCheck, SudoLoggingCheck};
use crate::checks::ssh::{SshPasswordAuthCheck, SshPortCheck, SshRootLoginCheck};
use crate::checks::system::{
    cpu_report, CpuUsageCheck, DiskUsageCheck, MemoryUsageCheck, RebootRequiredCheck,
};
use crate::collectors::Collectors;
use crate::model::{AuditCheck, CheckResult, CheckResultView};
use vstd::prelude::*;

verus! {

/// One of the checks that come with the crate. An engine over this type
/// holds any mix of them.
pub enum DefaultCheck {
    SshRootLogin(SshRootLoginCheck),
    SshPasswordAuth(SshPasswordAuthCheck),
    SshPort(SshPortCheck),
    RebootRequired(RebootRequiredCheck),
    DiskUsage(DiskUsageCheck),
    MemoryUsage(MemoryUsageCheck),
    CpuUsage(CpuUsageCheck),
    SudoLogging(SudoLoggingCheck),
    PasswordPolicy(PasswordPolicyCheck),
    SuidFiles(SuidFilesCheck),
    ListeningPorts(ListeningPortsCheck),
    FirewallPresence(FirewallPresenceCheck),
    NftablesRules(NftablesRulesCheck),
}

/// The checks that come with the crate, in the order in which they are
/// registered and so reported.
pub open spec fn default_checks() -> Seq<DefaultCheck> {
    seq![
        DefaultCheck::SshRootLogin(SshRootLoginCheck),
        DefaultCheck::SshPasswordAuth(SshPasswordAuthCheck),
        DefaultCheck::SshPort(SshPortCheck),
        DefaultCheck::RebootRequired(RebootRequiredCheck),
        DefaultCheck::DiskUsage(DiskUsageCheck),
        DefaultCheck::MemoryUsage(MemoryUsageCheck),
        DefaultCheck::CpuUsage(CpuUsageCheck),
        DefaultCheck::SudoLogging(SudoLoggingCheck),
        DefaultCheck::PasswordPolicy(PasswordPolicyCheck),
        DefaultCheck::SuidFiles(SuidFilesCheck),
        DefaultCheck::ListeningPorts(ListeningPortsCheck),
        DefaultCheck::FirewallPresence(FirewallPresenceCheck),
        DefaultCheck::NftablesRules(NftablesRulesCheck),
    ]
}

/// Each of the checks but the one on processor load reports what the
/// snapshot alone decides.
pub proof fn lemma_default_checks_decided(check: DefaultCheck, ctx: &Collectors)
    requires
        !(check is CpuUsage),
    ensures
        check.spec_run(ctx) is Some,
{
}

impl AuditCheck for DefaultCheck {
    open spec fn spec_id(&self) -> Seq<char> {
        match self {
            DefaultCheck::SshRootLogin(c) => c.spec_id(),
            DefaultCheck::SshPasswordAuth(c) => c.spec_id(),
            DefaultCheck::SshPort(c) => c.spec_id(),
            DefaultCheck::RebootRequired(c) => c.spec_id(),
            DefaultCheck::DiskUsage(c) => c.spec_id(),
            DefaultCheck::MemoryUsage(c) => c.spec_id(),
            DefaultCheck::CpuUsage(c) => c.spec_id(),
            DefaultCheck::SudoLogging(c) => c.spec_id(),
            DefaultCheck::PasswordPolicy(c) => c.spec_id(),
            DefaultCheck::SuidFiles(c) => c.spec_id(),
            DefaultCheck::ListeningPorts(c) => c.spec_id(),
            DefaultCheck::FirewallPresence(c) => c.spec_id(),
            DefaultCheck::NftablesRules(c) => c.spec_id(),
        }
    }

    open spec fn spec_title(&self) -> Seq<char> {
        match self {
            DefaultCheck::SshRootLogin(c) => c.spec_title(),
            DefaultCheck::SshPasswordAuth(c) => c.spec_title(),
            DefaultCheck::SshPort(c) => c.spec_title(),
            DefaultCheck::RebootRequired(c) => c.spec_title(),
            DefaultCheck::DiskUsage(c) => c.spec_title(),
            DefaultCheck::MemoryUsage(c) => c.spec_title(),
            DefaultCheck::CpuUsage(c) => c.spec_title(),
            DefaultCheck::SudoLogging(c) => c.spec_title(),
            DefaultCheck::PasswordPolicy(c) => c.spec_title(),
            DefaultCheck::SuidFiles(c) => c.spec_title(),
            DefaultCheck::ListeningPorts(c) => c.spec_title(),
            DefaultCheck::FirewallPresence(c) => c.spec_title(),
            DefaultCheck::NftablesRules(c) => c.spec_title(),
        }
    }

    open spec fn spec_categories(&self) -> Seq<Seq<char>> {
        match self {
            DefaultCheck::SshRootLogin(c) => c.spec_categories(),
            DefaultCheck::SshPasswordAuth(c) => c.spec_categories(),
            DefaultCheck::SshPort(c) => c.spec_categories(),
            DefaultCheck::RebootRequired(c) => c.spec_categories(),
            DefaultCheck::DiskUsage(c) => c.spec_categories(),
            DefaultCheck::MemoryUsage(c) => c.spec_categories(),
            DefaultCheck::CpuUsage(c) => c.spec_categories(),
            DefaultCheck::SudoLogging(c) => c.spec_categories(),
            DefaultCheck::PasswordPolicy(c) => c.spec_categories(),
            DefaultCheck::SuidFiles(c) => c.spec_categories(),
            DefaultCheck::ListeningPorts(c) => c.spec_categories(),
            DefaultCheck::FirewallPresence(c) => c.spec_categories(),
            DefaultCheck::NftablesRules(c) => c.spec_categories(),
        }
    }

    open spec fn spec_run(&self, ctx: &Collectors) -> Option<CheckResultView> {
        match self {
            DefaultCheck::SshRootLogin(c) => c.spec_run(ctx),
            DefaultCheck::SshPasswordAuth(c) => c.spec_run(ctx),
            DefaultCheck::SshPort(c) => c.spec_run(ctx),
            DefaultCheck::RebootRequired(c) => c.spec_run(ctx),
            DefaultCheck::DiskUsage(c) => c.spec_run(ctx),
            DefaultCheck::MemoryUsage(c) => c.spec_run(ctx),
            DefaultCheck::CpuUsage(c) => c.spec_run(ctx),
            DefaultCheck::SudoLogging(c) => c.spec_run(ctx),
            DefaultCheck::PasswordPolicy(c) => c.spec_run(ctx),
            DefaultCheck::SuidFiles(c) => c.spec_run(ctx),
            DefaultCheck::ListeningPorts(c) => c.spec_run(ctx),
            DefaultCheck::FirewallPresence(c) => c.spec_run(ctx),
            DefaultCheck::NftablesRules(c) => c.spec_run(ctx),
        }
    }

    fn id(&self) -> (r: &'static str) {
        match self {
            DefaultCheck::SshRootLogin(c) => c.id(),
            DefaultCheck::SshPasswordAuth(c) => c.id(),
            DefaultCheck::SshPort(c) => c.id(),
            DefaultCheck::RebootRequired(c) => c.id(),
            DefaultCheck::DiskUsage(c) => c.id(),
            DefaultCheck::MemoryUsage(c) => c.id(),
            DefaultCheck::CpuUsage(c) => c.id(),
            DefaultCheck::SudoLogging(c) => c.id(),
            DefaultCheck::PasswordPolicy(c) => c.id(),
            DefaultCheck::SuidFiles(c) => c.id(),
            DefaultCheck::ListeningPorts(c) => c.id(),
            DefaultCheck::FirewallPresence(c) => c.id(),
            DefaultCheck::NftablesRules(c) => c.id(),
        }
    }

    fn title(&self) -> (r: &'static str) {
        match self {
            DefaultCheck::SshRootLogin(c) => c.title(),
            DefaultCheck::SshPasswordAuth(c) => c.title(),
            DefaultCheck::SshPort(c) => c.title(),
            DefaultCheck::RebootRequired(c) => c.title(),
            DefaultCheck::DiskUsage(c) => c.title(),
            DefaultCheck::MemoryUsage(c) => c.title(),
            DefaultCheck::CpuUsage(c) => c.title(),
            DefaultCheck::SudoLogging(c) => c.title(),
            DefaultCheck::PasswordPolicy(c) => c.title(),
            DefaultCheck::SuidFiles(c) => c.title(),
            DefaultCheck::ListeningPorts(c) => c.title(),
            DefaultCheck::FirewallPresence(c) => c.title(),
            DefaultCheck::NftablesRules(c) => c.title(),
        }
    }

    fn categories(&self) -> (r: &'static [&'static str]) {
        match self {
            DefaultCheck::SshRootLogin(c) => c.categories(),
            DefaultCheck::SshPasswordAuth(c) => c.categories(),
            DefaultCheck::SshPort(c) => c.categories(),
            DefaultCheck::RebootRequired(c) => c.categories(),
            DefaultCheck::DiskUsage(c) => c.categories(),
            DefaultCheck::MemoryUsage(c) => c.categories(),
            DefaultCheck::CpuUsage(c) => c.categories(),
            DefaultCheck::SudoLogging(c) => c.categories(),
            DefaultCheck::PasswordPolicy(c) => c.categories(),
            DefaultCheck::SuidFiles(c) => c.categories(),
            DefaultCheck::ListeningPorts(c) => c.categories(),
            DefaultCheck::FirewallPresence(c) => c.categories(),
            DefaultCheck::NftablesRules(c) => c.categories(),
        }
    }

    /// Of the check on processor load, which depends on the machine as well
    /// as on the snapshot, the report is that on the load of the snapshot
    /// and some number of processors.
    fn run(&self, ctx: &Collectors) -> (r: CheckResult)
        ensures
            self is CpuUsage ==> exists|cores: nat|
                r@ == cpu_report(ctx.system.load_average_1m_hundredths, cores),
    {
        match self {
            DefaultCheck::SshRootLogin(c) => c.run(ctx),
            DefaultCheck::SshPasswordAuth(c) => c.run(ctx),
            DefaultCheck::SshPort(c) => c.run(ctx),
            DefaultCheck::RebootRequired(c) => c.run(ctx),
            DefaultCheck::DiskUsage(c) => c.run(ctx),
            DefaultCheck::MemoryUsage(c) => c.run(ctx),
            DefaultCheck::CpuUsage(c) => c.run(ctx),
            DefaultCheck::SudoLogging(c) => c.run(ctx),
            DefaultCheck::PasswordPolicy(c) => c.run(ctx),
            DefaultCheck::SuidFiles(c) => c.run(ctx),
            DefaultCheck::ListeningPorts(c) => c.run(ctx),
            DefaultCheck::FirewallPresence(c) => c.run(ctx),
            DefaultCheck::NftablesRules(c) => c.run(ctx),
        }
    }
}

} // verus!
