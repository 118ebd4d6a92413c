//! The three services and what they report.

use vstd::prelude::*;

use crate::double::Double;

verus! {

/// A service whose usage the widget shows.
#[derive(Clone, Copy, Debug, PartialEq, Eq, Hash, Structural)]
pub enum Provider {
    Copilot,
    Claude,
    Codex,
}

/// What a meter counts in.
#[derive(Clone, Copy, Debug, PartialEq, Eq, Structural)]
pub enum Unit {
    Dollars,
    Percent,
}

/// One gauge of a service: how much of an allowance is used.
#[derive(Debug)]
pub struct Meter {
    /// The window that the gauge covers, where the service has several.
    pub label: Option<String>,
    pub used: Double,
    /// The allowance; not above zero where there is no limit.
    pub total: Double,
    /// How much of the allowance is used, in percent.
    pub percent: Double,
    pub unit: Unit,
}

/// The name of each service, as the window shows it.
#[derive(Debug)]
pub struct Names {
    pub copilot: String,
    pub claude: String,
    pub codex: String,
}

impl Names {
    /// The name of a service.
    pub open spec fn of(self, p: Provider) -> Seq<char> {
        match p {
            Provider::Copilot => self.copilot@,
            Provider::Claude => self.claude@,
            Provider::Codex => self.codex@,
        }
    }

    /// The name of a service.
    pub fn get(&self, p: Provider) -> (name: &str)
        ensures
            name@ == self.of(p),
    {
        match p {
            Provider::Copilot => self.copilot.as_str(),
            Provider::Claude => self.claude.as_str(),
            Provider::Codex => self.codex.as_str(),
        }
    }
}

/// The services in the order in which the widget lists them.
pub open spec fn all_providers() -> Seq<Provider> {
    seq![Provider::Copilot, Provider::Claude, Provider::Codex]
}

impl Provider {
    /// The services in the order in which the widget lists them.
    pub fn all() -> (list: Vec<Provider>)
        ensures
            list@ == all_providers(),
    {
        let list = vec![Provider::Copilot, Provider::Claude, Provider::Codex];
        assert(list@ =~= all_providers());
        list
    }

    /// The three letters that stand for the service on the single line.
    pub open spec fn short_text(self) -> Seq<char> {
        match self {
            Provider::Copilot => "COP"@,
            Provider::Claude => "CLD"@,
            Provider::Codex => "CDX"@,
        }
    }

    /// The three letters that stand for the service on the single line.
    pub fn short_name(self) -> (s: &'static str)
        ensures
            s@ == self.short_text(),
    {
        match self {
            Provider::Copilot => "COP",
            Provider::Claude => "CLD",
            Provider::Codex => "CDX",
        }
    }
}

/// The widget lists every service, each once, in one order.
pub proof fn law_services_are_listed_once(p: Provider)
    ensures
        all_providers().len() == 3,
        all_providers().contains(p),
        all_providers().no_duplicates(),
        all_providers().index_of(Provider::Copilot) == 0,
        all_providers().index_of(Provider::Codex) == 2,
{
    assert(all_providers()[0] == Provider::Copilot);
    assert(all_providers()[1] == Provider::Claude);
    assert(all_providers()[2] == Provider::Codex);
}

/// Each service has its own name, and its own three letters on the single line.
pub proof fn law_services_are_told_apart(names: Names, p: Provider, q: Provider)
    ensures
        names.of(Provider::Copilot) == names.copilot@,
        names.of(Provider::Claude) == names.claude@,
        names.of(Provider::Codex) == names.codex@,
        p.short_text() == "COP"@ <==> p == Provider::Copilot,
        p.short_text() == "CLD"@ <==> p == Provider::Claude,
        p.short_text() == "CDX"@ <==> p == Provider::Codex,
        p.short_text() == q.short_text() ==> p == q,
{
    reveal_strlit("COP");
    reveal_strlit("CLD");
    reveal_strlit("CDX");
    assert("COP"@[1] == 'O' && "CLD"@[1] == 'L' && "CDX"@[1] == 'D');
}

/// A meter has an allowance if and only if its total is above zero.
pub proof fn law_limited_above_zero(m: Meter)
    ensures
        m.limited() <==> (Double { bits: 0 }).below(m.total),
{
    assert((Double { bits: 0 }).units() == 0);
}

impl Meter {
    /// True of a meter with an allowance.
    pub open spec fn limited(self) -> bool {
        !self.total.nan() && self.total.units() > 0
    }

    /// Tells whether the meter has an allowance.
    pub fn is_limited(&self) -> (yes: bool)
        ensures
            yes == self.limited(),
    {
        self.total.is_positive()
    }
}

} // verus!
