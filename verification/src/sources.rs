//! The configured upstream providers.
use crate::text::same_text;
use vstd::prelude::*;

verus! {

/// The number of configured providers.
pub const SOURCE_COUNT: usize = 4;

/// A configured price provider.
#[derive(Clone, Copy, Debug, PartialEq, Eq, Structural)]
pub enum UpstreamSource {
    CoinGecko,
    Coinbase,
    Kraken,
    Gemini,
}

/// The providers in configured order.
pub open spec fn all_sources() -> Seq<UpstreamSource> {
    seq![
        UpstreamSource::CoinGecko,
        UpstreamSource::Coinbase,
        UpstreamSource::Kraken,
        UpstreamSource::Gemini,
    ]
}

/// The name under which a provider is stored and shown.
pub open spec fn source_name(source: UpstreamSource) -> Seq<char> {
    match source {
        UpstreamSource::CoinGecko => "CoinGecko"@,
        UpstreamSource::Coinbase => "Coinbase"@,
        UpstreamSource::Kraken => "Kraken"@,
        UpstreamSource::Gemini => "Gemini"@,
    }
}

/// Whether a name belongs to a configured provider.
pub open spec fn configured(name: Seq<char>) -> bool {
    exists|source: UpstreamSource| #[trigger] source_name(source) == name
}

impl UpstreamSource {
    /// The provider's place in configured order.
    pub open spec fn position(self) -> nat {
        match self {
            UpstreamSource::CoinGecko => 0,
            UpstreamSource::Coinbase => 1,
            UpstreamSource::Kraken => 2,
            UpstreamSource::Gemini => 3,
        }
    }

    /// The provider's place in configured order.
    pub fn index(self) -> (index: usize)
        ensures
            index == self.position(),
            index < SOURCE_COUNT,
            all_sources()[index as int] == self,
    {
        match self {
            UpstreamSource::CoinGecko => 0,
            UpstreamSource::Coinbase => 1,
            UpstreamSource::Kraken => 2,
            UpstreamSource::Gemini => 3,
        }
    }

    /// The provider at a place of the configured order.
    pub fn at(index: usize) -> (source: UpstreamSource)
        requires
            index < SOURCE_COUNT,
        ensures
            source == all_sources()[index as int],
            source.position() == index,
    {
        match index {
            0 => UpstreamSource::CoinGecko,
            1 => UpstreamSource::Coinbase,
            2 => UpstreamSource::Kraken,
            _ => UpstreamSource::Gemini,
        }
    }

    /// The name under which the provider is stored and shown.
    pub fn name(self) -> (name: &'static str)
        ensures
            name@ == source_name(self),
    {
        match self {
            UpstreamSource::CoinGecko => "CoinGecko",
            UpstreamSource::Coinbase => "Coinbase",
            UpstreamSource::Kraken => "Kraken",
            UpstreamSource::Gemini => "Gemini",
        }
    }

    /// The provider that bears a name.
    pub fn named(name: &str) -> (source: Option<UpstreamSource>)
        ensures
            source is Some <==> configured(name@),
            source matches Some(source) ==> source_name(source) == name@,
    {
        if same_text(name, "CoinGecko") {
            assert(source_name(UpstreamSource::CoinGecko) == name@);
            Some(UpstreamSource::CoinGecko)
        } else if same_text(name, "Coinbase") {
            assert(source_name(UpstreamSource::Coinbase) == name@);
            Some(UpstreamSource::Coinbase)
        } else if same_text(name, "Kraken") {
            assert(source_name(UpstreamSource::Kraken) == name@);
            Some(UpstreamSource::Kraken)
        } else if same_text(name, "Gemini") {
            assert(source_name(UpstreamSource::Gemini) == name@);
            Some(UpstreamSource::Gemini)
        } else {
            None
        }
    }
}

/// No two providers share a name.
pub proof fn law_names_are_distinct(a: UpstreamSource, b: UpstreamSource)
    ensures
        source_name(a) == source_name(b) <==> a == b,
{
    reveal_strlit("CoinGecko");
    reveal_strlit("Coinbase");
    reveal_strlit("Kraken");
    reveal_strlit("Gemini");
    assert(source_name(UpstreamSource::CoinGecko).len() == 9);
    assert(source_name(UpstreamSource::Coinbase).len() == 8);
    assert(source_name(UpstreamSource::Kraken)[0] == 'K');
    assert(source_name(UpstreamSource::Gemini)[0] == 'G');
    assert(source_name(UpstreamSource::Kraken).len() == 6);
    assert(source_name(UpstreamSource::Gemini).len() == 6);
}

/// A name is configured where it is that of one of the four providers, each at its own place.
pub proof fn law_four_providers_are_configured(name: Seq<char>, source: UpstreamSource)
    ensures
        configured(name) <==> name == "CoinGecko"@ || name == "Coinbase"@ || name == "Kraken"@
            || name == "Gemini"@,
        all_sources().len() == 4,
        source.position() < 4,
        all_sources()[source.position() as int] == source,
{
    assert(source_name(UpstreamSource::CoinGecko) == "CoinGecko"@);
    assert(source_name(UpstreamSource::Coinbase) == "Coinbase"@);
    assert(source_name(UpstreamSource::Kraken) == "Kraken"@);
    assert(source_name(UpstreamSource::Gemini) == "Gemini"@);
}

} // verus!
