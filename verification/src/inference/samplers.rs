//! Sampler and scheduler selection for the diffusion pipeline: the kinds
//! offered, their display and wire names, and the parsing of the names a
//! user may type for them.
use vstd::prelude::*;
use crate::text::{
    all_ascii, ascii_lowercase, concat, str_equal, to_lowercase, unicode_lowercase,
};

verus! {

/// Sampling algorithm for the denoising process.
#[derive(Clone, Copy, Debug, PartialEq, Eq, Structural)]
pub enum SamplerType {
    /// First-order ODE solver; fast and stable.
    Euler,
    /// Euler ancestral: adds noise at each step.
    EulerA,
    /// DPM++ 2M: second-order multistep method.
    DpmPP2M,
}

/// Noise schedule used to generate the timesteps.
#[derive(Clone, Copy, Debug, PartialEq, Eq, Structural)]
pub enum SchedulerType {
    /// Linear timestep schedule (FLUX's default).
    Normal,
    /// Uniform schedule.
    Simple,
    /// Karras et al. noise schedule.
    Karras,
    /// Exponential decay schedule.
    Exponential,
}

impl Default for SamplerType {
    fn default() -> (r: Self)
        ensures
            r == SamplerType::Euler,
    {
        SamplerType::Euler
    }
}

impl Default for SchedulerType {
    fn default() -> (r: Self)
        ensures
            r == SchedulerType::Normal,
    {
        SchedulerType::Normal
    }
}

impl SamplerType {
    /// Name shown in the user interface.
    pub open spec fn display(self) -> Seq<char> {
        match self {
            SamplerType::Euler => "Euler"@,
            SamplerType::EulerA => "Euler A"@,
            SamplerType::DpmPP2M => "DPM++ 2M"@,
        }
    }

    /// Name used in settings, requests and metadata.
    pub open spec fn wire(self) -> Seq<char> {
        match self {
            SamplerType::Euler => seq!['e', 'u', 'l', 'e', 'r'],
            SamplerType::EulerA => seq!['e', 'u', 'l', 'e', 'r', '_', 'a'],
            SamplerType::DpmPP2M => seq!['d', 'p', 'm', '_', 'p', 'p', '_', '2', 'm'],
        }
    }

    /// Name shown in the user interface.
    pub fn display_name(&self) -> (s: &'static str)
        ensures
            s@ == self.display(),
    {
        match self {
            SamplerType::Euler => "Euler",
            SamplerType::EulerA => "Euler A",
            SamplerType::DpmPP2M => "DPM++ 2M",
        }
    }

    /// All samplers, in the order the user interface lists them.
    pub fn all() -> (r: Vec<SamplerType>)
        ensures
            r@ == seq![SamplerType::Euler, SamplerType::EulerA, SamplerType::DpmPP2M],
    {
        vec![SamplerType::Euler, SamplerType::EulerA, SamplerType::DpmPP2M]
    }

    /// The wire name (the text form of the sampler).
    pub fn to_string(&self) -> (s: String)
        ensures
            s@ == self.wire(),
    {
        match self {
            SamplerType::Euler => {
                proof {
                    reveal_strlit("euler");
                }
                "euler".to_owned()
            },
            SamplerType::EulerA => {
                proof {
                    reveal_strlit("euler_a");
                }
                "euler_a".to_owned()
            },
            SamplerType::DpmPP2M => {
                proof {
                    reveal_strlit("dpm_pp_2m");
                }
                "dpm_pp_2m".to_owned()
            },
        }
    }
}

/// The sampler a lowercase name stands for, if any.
pub open spec fn sampler_named(lower: Seq<char>) -> Option<SamplerType> {
    if lower == "euler"@ {
        Some(SamplerType::Euler)
    } else if lower == "euler_a"@ || lower == "eulera"@ || lower == "euler-a"@ {
        Some(SamplerType::EulerA)
    } else if lower == "dpm_pp_2m"@ || lower == "dpmpp2m"@ || lower == "dpm++2m"@ || lower
        == "dpm_pp2m"@ {
        Some(SamplerType::DpmPP2M)
    } else {
        None
    }
}

/// The sampler a lowercase name stands for, if any.
pub fn sampler_for_name(lower: &str) -> (r: Option<SamplerType>)
    ensures
        r == sampler_named(lower@),
{
    if str_equal(lower, "euler") {
        Some(SamplerType::Euler)
    } else if str_equal(lower, "euler_a") || str_equal(lower, "eulera") || str_equal(
        lower,
        "euler-a",
    ) {
        Some(SamplerType::EulerA)
    } else if str_equal(lower, "dpm_pp_2m") || str_equal(lower, "dpmpp2m") || str_equal(
        lower,
        "dpm++2m",
    ) || str_equal(lower, "dpm_pp2m") {
        Some(SamplerType::DpmPP2M)
    } else {
        None
    }
}

/// Parses a sampler name, ignoring case; an unknown name is an error
/// carrying "Unknown sampler: " and the name as given.
pub fn parse_sampler(s: &str) -> (r: Result<SamplerType, String>)
    ensures
        r matches Ok(t) ==> sampler_named(unicode_lowercase(s@)) == Some(t),
        r matches Err(e) ==> sampler_named(unicode_lowercase(s@)) is None && e@ == "Unknown sampler: "@
            + s@,
        all_ascii(s@) ==> (r is Ok <==> sampler_named(ascii_lowercase(s@)) is Some),
        all_ascii(s@) && r is Ok ==> sampler_named(ascii_lowercase(s@)) == Some(r->Ok_0),

{
    let lower = to_lowercase(s);
    match sampler_for_name(lower.as_str()) {
        Some(t) => Ok(t),
        None => Err(concat("Unknown sampler: ", s)),
    }
}

impl core::str::FromStr for SamplerType {
    type Err = String;

    /// Parses a name as `parse_sampler` does.
    fn from_str(s: &str) -> (r: Result<Self, Self::Err>)
        ensures
            r matches Ok(t) ==> sampler_named(unicode_lowercase(s@)) == Some(t),
            r matches Err(e) ==> sampler_named(unicode_lowercase(s@)) is None && e@ == "Unknown sampler: "@ + s@,
            all_ascii(s@) ==> (r is Ok <==> sampler_named(ascii_lowercase(s@)) is Some),
            all_ascii(s@) && r is Ok ==> sampler_named(ascii_lowercase(s@)) == Some(r->Ok_0),
    {
        parse_sampler(s)
    }
}

impl SchedulerType {
    /// Name shown in the user interface.
    pub open spec fn display(self) -> Seq<char> {
        match self {
            SchedulerType::Normal => "Normal"@,
            SchedulerType::Simple => "Simple"@,
            SchedulerType::Karras => "Karras"@,
            SchedulerType::Exponential => "Exponential"@,
        }
    }

    /// Name used in settings, requests and metadata.
    pub open spec fn wire(self) -> Seq<char> {
        match self {
            SchedulerType::Normal => seq!['n', 'o', 'r', 'm', 'a', 'l'],
            SchedulerType::Simple => seq!['s', 'i', 'm', 'p', 'l', 'e'],
            SchedulerType::Karras => seq!['k', 'a', 'r', 'r', 'a', 's'],
            SchedulerType::Exponential => seq![
                'e',
                'x',
                'p',
                'o',
                'n',
                'e',
                'n',
                't',
                'i',
                'a',
                'l',
            ],
        }
    }

    /// Name shown in the user interface.
    pub fn display_name(&self) -> (s: &'static str)
        ensures
            s@ == self.display(),
    {
        match self {
            SchedulerType::Normal => "Normal",
            SchedulerType::Simple => "Simple",
            SchedulerType::Karras => "Karras",
            SchedulerType::Exponential => "Exponential",
        }
    }

    /// All schedulers, in the order the user interface lists them.
    pub fn all() -> (r: Vec<SchedulerType>)
        ensures
            r@ == seq![
                SchedulerType::Normal,
                SchedulerType::Simple,
                SchedulerType::Karras,
                SchedulerType::Exponential,
            ],
    {
        vec![
            SchedulerType::Normal,
            SchedulerType::Simple,
            SchedulerType::Karras,
            SchedulerType::Exponential,
        ]
    }

    /// The wire name (the text form of the scheduler).
    pub fn to_string(&self) -> (s: String)
        ensures
            s@ == self.wire(),
    {
        match self {
            SchedulerType::Normal => {
                proof {
                    reveal_strlit("normal");
                }
                "normal".to_owned()
            },
            SchedulerType::Simple => {
                proof {
                    reveal_strlit("simple");
                }
                "simple".to_owned()
            },
            SchedulerType::Karras => {
                proof {
                    reveal_strlit("karras");
                }
                "karras".to_owned()
            },
            SchedulerType::Exponential => {
                proof {
                    reveal_strlit("exponential");
                }
                "exponential".to_owned()
            },
        }
    }
}

/// The scheduler a lowercase name stands for, if any.
pub open spec fn scheduler_named(lower: Seq<char>) -> Option<SchedulerType> {
    if lower == "normal"@ || lower == "linear"@ {
        Some(SchedulerType::Normal)
    } else if lower == "simple"@ || lower == "uniform"@ {
        Some(SchedulerType::Simple)
    } else if lower == "karras"@ {
        Some(SchedulerType::Karras)
    } else if lower == "exponential"@ || lower == "exp"@ {
        Some(SchedulerType::Exponential)
    } else {
        None
    }
}

/// The scheduler a lowercase name stands for, if any.
pub fn scheduler_for_name(lower: &str) -> (r: Option<SchedulerType>)
    ensures
        r == scheduler_named(lower@),
{
    if str_equal(lower, "normal") || str_equal(lower, "linear") {
        Some(SchedulerType::Normal)
    } else if str_equal(lower, "simple") || str_equal(lower, "uniform") {
        Some(SchedulerType::Simple)
    } else if str_equal(lower, "karras") {
        Some(SchedulerType::Karras)
    } else if str_equal(lower, "exponential") || str_equal(lower, "exp") {
        Some(SchedulerType::Exponential)
    } else {
        None
    }
}

/// Parses a scheduler name, ignoring case; an unknown name is an error
/// carrying "Unknown scheduler: " and the name as given.
pub fn parse_scheduler(s: &str) -> (r: Result<SchedulerType, String>)
    ensures
        r matches Ok(t) ==> scheduler_named(unicode_lowercase(s@)) == Some(t),
        r matches Err(e) ==> scheduler_named(unicode_lowercase(s@)) is None && e@
            == "Unknown scheduler: "@ + s@,
        all_ascii(s@) ==> (r is Ok <==> scheduler_named(ascii_lowercase(s@)) is Some),
        all_ascii(s@) && r is Ok ==> scheduler_named(ascii_lowercase(s@)) == Some(r->Ok_0),

{
    let lower = to_lowercase(s);
    match scheduler_for_name(lower.as_str()) {
        Some(t) => Ok(t),
        None => Err(concat("Unknown scheduler: ", s)),
    }
}

impl core::str::FromStr for SchedulerType {
    type Err = String;

    /// Parses a name as `parse_scheduler` does.
    fn from_str(s: &str) -> (r: Result<Self, Self::Err>)
        ensures
            r matches Ok(t) ==> scheduler_named(unicode_lowercase(s@)) == Some(t),
            r matches Err(e) ==> scheduler_named(unicode_lowercase(s@)) is None && e@ == "Unknown scheduler: "@ + s@,
            all_ascii(s@) ==> (r is Ok <==> scheduler_named(ascii_lowercase(s@)) is Some),
            all_ascii(s@) && r is Ok ==> scheduler_named(ascii_lowercase(s@)) == Some(r->Ok_0),
    {
        parse_scheduler(s)
    }
}


/// The text form of a sampler parses back to it: its wire name is ASCII,
/// already lowercase, and names that sampler.
pub proof fn lemma_sampler_wire_parses(t: SamplerType)
    ensures
        all_ascii(t.wire()),
        ascii_lowercase(t.wire()) == t.wire(),
        sampler_named(t.wire()) == Some(t),
{
    reveal_strlit("euler");
    reveal_strlit("euler_a");
    reveal_strlit("eulera");
    reveal_strlit("euler-a");
    reveal_strlit("dpm_pp_2m");
    assert(ascii_lowercase(t.wire()) =~= t.wire());
    if t == SamplerType::DpmPP2M {
        assert(t.wire() =~= "dpm_pp_2m"@);
    } else if t == SamplerType::EulerA {
        assert(t.wire() =~= "euler_a"@);
        assert(t.wire() != "euler"@);
    } else {
        assert(t.wire() =~= "euler"@);
    }
}

/// The text form of a scheduler parses back to it: its wire name is ASCII,
/// already lowercase, and names that scheduler.
pub proof fn lemma_scheduler_wire_parses(t: SchedulerType)
    ensures
        all_ascii(t.wire()),
        ascii_lowercase(t.wire()) == t.wire(),
        scheduler_named(t.wire()) == Some(t),
{
    reveal_strlit("normal");
    reveal_strlit("linear");
    reveal_strlit("simple");
    reveal_strlit("uniform");
    reveal_strlit("karras");
    reveal_strlit("exponential");
    reveal_strlit("exp");
    assert(ascii_lowercase(t.wire()) =~= t.wire());
    match t {
        SchedulerType::Normal => {
            assert(t.wire() =~= "normal"@);
        },
        SchedulerType::Simple => {
            assert(t.wire() =~= "simple"@);
            assert(t.wire() != "normal"@);
            assert(t.wire() != "linear"@);
        },
        SchedulerType::Karras => {
            assert(t.wire() =~= "karras"@);
            assert(t.wire() != "normal"@);
            assert(t.wire() != "linear"@);
            assert(t.wire() != "simple"@);
            assert(t.wire() != "uniform"@);
        },
        SchedulerType::Exponential => {
            assert(t.wire() =~= "exponential"@);
            assert(t.wire() != "normal"@);
            assert(t.wire() != "linear"@);
            assert(t.wire() != "simple"@);
            assert(t.wire() != "uniform"@);
            assert(t.wire() != "karras"@);
        },
    }
}

/// The sampler names, alias by alias: "euler" alone names Euler; "euler_a",
/// "eulera" and "euler-a" name Euler Ancestral; "dpm_pp_2m", "dpmpp2m",
/// "dpm++2m" and "dpm_pp2m" name DPM++ 2M; no other lowercase name names a
/// sampler.
pub proof fn lemma_sampler_aliases(lower: Seq<char>)
    ensures
        sampler_named(lower) == Some(SamplerType::Euler) <==> lower == "euler"@,
        sampler_named(lower) == Some(SamplerType::EulerA) <==> (lower == "euler_a"@ || lower == "eulera"@
            || lower == "euler-a"@),
        sampler_named(lower) == Some(SamplerType::DpmPP2M) <==> (lower == "dpm_pp_2m"@ || lower == "dpmpp2m"@
            || lower == "dpm++2m"@ || lower == "dpm_pp2m"@),
        sampler_named(lower) is None <==> !(lower == "euler"@ || lower == "euler_a"@ || lower == "eulera"@
            || lower == "euler-a"@ || lower == "dpm_pp_2m"@ || lower == "dpmpp2m"@ || lower == "dpm++2m"@
            || lower == "dpm_pp2m"@),
{
    reveal_strlit("euler");
    reveal_strlit("euler_a");
    reveal_strlit("eulera");
    reveal_strlit("euler-a");
    reveal_strlit("dpm_pp_2m");
    reveal_strlit("dpmpp2m");
    reveal_strlit("dpm++2m");
    reveal_strlit("dpm_pp2m");
    assert("euler"@.len() == 5 && "euler"@[0] == 'e');
    assert("euler_a"@.len() == 7 && "euler_a"@[0] == 'e');
    assert("eulera"@.len() == 6 && "eulera"@[0] == 'e');
    assert("euler-a"@.len() == 7 && "euler-a"@[0] == 'e');
    assert("dpm_pp_2m"@.len() == 9 && "dpm_pp_2m"@[0] == 'd');
    assert("dpmpp2m"@.len() == 7 && "dpmpp2m"@[0] == 'd');
    assert("dpm++2m"@.len() == 7 && "dpm++2m"@[0] == 'd');
    assert("dpm_pp2m"@.len() == 8 && "dpm_pp2m"@[0] == 'd');
}

/// The scheduler names, alias by alias: "normal" and "linear" name Normal;
/// "simple" and "uniform" name Simple; "karras" names Karras;
/// "exponential" and "exp" name Exponential; no other lowercase name names
/// a scheduler.
pub proof fn lemma_scheduler_aliases(lower: Seq<char>)
    ensures
        scheduler_named(lower) == Some(SchedulerType::Normal) <==> (lower == "normal"@ || lower == "linear"@),
        scheduler_named(lower) == Some(SchedulerType::Simple) <==> (lower == "simple"@ || lower == "uniform"@),
        scheduler_named(lower) == Some(SchedulerType::Karras) <==> lower == "karras"@,
        scheduler_named(lower) == Some(SchedulerType::Exponential) <==> (lower == "exponential"@ || lower
            == "exp"@),
        scheduler_named(lower) is None <==> !(lower == "normal"@ || lower == "linear"@ || lower == "simple"@
            || lower == "uniform"@ || lower == "karras"@ || lower == "exponential"@ || lower == "exp"@),
{
    reveal_strlit("normal");
    reveal_strlit("linear");
    reveal_strlit("simple");
    reveal_strlit("uniform");
    reveal_strlit("karras");
    reveal_strlit("exponential");
    reveal_strlit("exp");
    assert("normal"@.len() == 6 && "normal"@[0] == 'n');
    assert("linear"@.len() == 6 && "linear"@[0] == 'l');
    assert("simple"@.len() == 6 && "simple"@[0] == 's');
    assert("uniform"@.len() == 7 && "uniform"@[0] == 'u');
    assert("karras"@.len() == 6 && "karras"@[0] == 'k');
    assert("exponential"@.len() == 11 && "exponential"@[0] == 'e');
    assert("exp"@.len() == 3 && "exp"@[0] == 'e');
}

/// The wire names and display names of the samplers and schedulers,
/// variant by variant.
pub proof fn lemma_wire_and_display_names()
    ensures
        SamplerType::Euler.wire() == "euler"@ && SamplerType::Euler.display() == "Euler"@,
        SamplerType::EulerA.wire() == "euler_a"@ && SamplerType::EulerA.display() == "Euler A"@,
        SamplerType::DpmPP2M.wire() == "dpm_pp_2m"@ && SamplerType::DpmPP2M.display() == "DPM++ 2M"@,
        SchedulerType::Normal.wire() == "normal"@ && SchedulerType::Normal.display() == "Normal"@,
        SchedulerType::Simple.wire() == "simple"@ && SchedulerType::Simple.display() == "Simple"@,
        SchedulerType::Karras.wire() == "karras"@ && SchedulerType::Karras.display() == "Karras"@,
        SchedulerType::Exponential.wire() == "exponential"@ && SchedulerType::Exponential.display()
            == "Exponential"@,
{
    reveal_strlit("euler");
    reveal_strlit("euler_a");
    reveal_strlit("dpm_pp_2m");
    reveal_strlit("normal");
    reveal_strlit("simple");
    reveal_strlit("karras");
    reveal_strlit("exponential");
}

} // verus!
