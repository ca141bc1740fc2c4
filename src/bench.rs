//! Benchmark profiles: which models a benchmark run compares.
use vstd::prelude::*;
use crate::model::{ModelType, lowercase, lowercase_of, model_for_name};
use crate::error::DemongrepError;
use crate::text::{str_equal, concat_str, split_on, join_with, string_views};

verus! {

/// How many models a benchmark run compares.
#[derive(Debug, Clone, Copy, PartialEq, Eq, Structural)]
pub enum BenchProfile {
    Smoke,
    Standard,
    Full,
}

/// The profile an already lowercased name selects.
pub open spec fn profile_for_name(n: Seq<char>) -> Option<BenchProfile> {
    if n == "smoke"@ {
        Some(BenchProfile::Smoke)
    } else if n == "standard"@ {
        Some(BenchProfile::Standard)
    } else if n == "full"@ {
        Some(BenchProfile::Full)
    } else {
        None
    }
}

/// The message for a name that selects no profile.
pub open spec fn invalid_profile_details(name: Seq<char>) -> Seq<char> {
    "Invalid profile '"@ + name + "'. Available: smoke, standard, full"@
}

/// The models a profile compares.
pub open spec fn spec_models_for_profile(p: BenchProfile) -> Seq<ModelType> {
    match p {
        BenchProfile::Smoke => seq![ModelType::AllMiniLML6V2Q, ModelType::BGESmallENV15Q],
        BenchProfile::Standard => seq![
            ModelType::AllMiniLML6V2Q,
            ModelType::BGESmallENV15Q,
            ModelType::JinaEmbeddingsV2BaseCode,
        ],
        BenchProfile::Full => seq![
            ModelType::AllMiniLML6V2Q,
            ModelType::BGESmallENV15Q,
            ModelType::JinaEmbeddingsV2BaseCode,
            ModelType::MxbaiEmbedLargeV1,
            ModelType::MxbaiEmbedXSmallV1,
        ],
    }
}

impl BenchProfile {
    /// Selects a profile by an already lowercased name.
    pub fn from_lower_name(name: &str) -> (r: Result<BenchProfile, DemongrepError>)
        ensures
            match profile_for_name(name@) {
                Some(p) => r == Ok::<BenchProfile, DemongrepError>(p),
                None => r matches Err(DemongrepError::ConfigError { details }) && details@ == invalid_profile_details(name@),
            },
    {
        if str_equal(name, "smoke") {
            Ok(BenchProfile::Smoke)
        } else if str_equal(name, "standard") {
            Ok(BenchProfile::Standard)
        } else if str_equal(name, "full") {
            Ok(BenchProfile::Full)
        } else {
            let a = concat_str("Invalid profile '", name);
            let details = a.concat("'. Available: smoke, standard, full");
            Err(DemongrepError::ConfigError { details })
        }
    }

    /// Selects a profile by name, ignoring case; the error names the
    /// profile as it was given.
    pub fn from_str(profile: &str) -> (r: Result<BenchProfile, DemongrepError>)
        ensures
            match profile_for_name(lowercase_of(profile@)) {
                Some(p) => r == Ok::<BenchProfile, DemongrepError>(p),
                None => r matches Err(DemongrepError::ConfigError { details }) && details@ == invalid_profile_details(profile@),
            },
    {
        let lower = lowercase(profile);
        match BenchProfile::from_lower_name(lower.as_str()) {
            Ok(p) => Ok(p),
            Err(_) => {
                let a = concat_str("Invalid profile '", profile);
                let details = a.concat("'. Available: smoke, standard, full");
                Err(DemongrepError::ConfigError { details })
            },
        }
    }

    /// The profile's name.
    pub fn as_str(&self) -> (r: &'static str)
        ensures
            r@ == (match *self {
                BenchProfile::Smoke => "smoke"@,
                BenchProfile::Standard => "standard"@,
                BenchProfile::Full => "full"@,
            }),
    {
        match self {
            BenchProfile::Smoke => "smoke",
            BenchProfile::Standard => "standard",
            BenchProfile::Full => "full",
        }
    }
}

/// The models a profile compares.
pub fn models_for_profile(profile: BenchProfile) -> (r: Vec<ModelType>)
    ensures
        r@ == spec_models_for_profile(profile),
{
    match profile {
        BenchProfile::Smoke => vec![ModelType::AllMiniLML6V2Q, ModelType::BGESmallENV15Q],
        BenchProfile::Standard => vec![
            ModelType::AllMiniLML6V2Q,
            ModelType::BGESmallENV15Q,
            ModelType::JinaEmbeddingsV2BaseCode,
        ],
        BenchProfile::Full => ModelType::all(),
    }
}

/// What `str::trim` returns for a text.
pub uninterp spec fn trimmed_of(s: Seq<char>) -> Seq<char>;

/// Relies on `str::trim`: the text without leading and trailing
/// whitespace, a function of the characters alone.
#[verifier::external_body]
fn trim(s: &str) -> (r: String)
    ensures
        r@ == trimmed_of(s@),
{
    s.trim().to_string()
}

/// The models that a comma-separated list of names selects, in order;
/// names that select no model are skipped.
pub open spec fn models_named(names: Seq<Seq<char>>) -> Seq<ModelType>
    decreases names.len(),
{
    if names.len() == 0 {
        Seq::empty()
    } else {
        let rest = models_named(names.drop_last());
        match model_for_name(lowercase_of(trimmed_of(names.last()))) {
            Some(m) => rest.push(m),
            None => rest,
        }
    }
}

/// The models a benchmark run compares: those named in `models_filter`
/// (comma-separated, surrounding whitespace ignored, unknown names
/// skipped) when it is given, else those of the profile. Fails when the
/// filter names no known model.
pub fn select_models(models_filter: Option<&str>, profile: BenchProfile) -> (r: Result<Vec<ModelType>, DemongrepError>)
    ensures
        match models_filter {
            None => r matches Ok(v) && v@ == spec_models_for_profile(profile),
            Some(f) => forall|names: Seq<Seq<char>>| names.len() >= 1 && join_with(names, ',') == f@ && (forall|i: int| 0 <= i < names.len() ==> crate::text::lacks(#[trigger] names[i], ',')) ==> {
                let ms = models_named(names);
                &&& ms.len() > 0 ==> (r matches Ok(v) && v@ == ms)
                &&& ms.len() == 0 ==> (r matches Err(DemongrepError::ConfigError { .. }))
            },
        },
{
    match models_filter {
        None => Ok(models_for_profile(profile)),
        Some(filter) => {
            let names = split_on(filter, ',');
            let ghost nv = string_views(names@);
            let mut parsed: Vec<ModelType> = Vec::new();
            let mut i: usize = 0;
            while i < names.len()
                invariant
                    nv == string_views(names@),
                    i <= names@.len(),
                    parsed@ == models_named(nv.subrange(0, i as int)),
                decreases names@.len() - i,
            {
                let t = trim(names[i].as_str());
                let m = ModelType::from_str(t.as_str());
                proof {
                    let s = nv.subrange(0, i + 1);
                    assert(s.drop_last() =~= nv.subrange(0, i as int));
                    assert(s.last() == names@[i as int]@);
                }
                match m {
                    Some(x) => parsed.push(x),
                    None => {},
                }
                i = i + 1;
            }
            proof {
                assert(nv.subrange(0, nv.len() as int) =~= nv);
                assert forall|names2: Seq<Seq<char>>| names2.len() >= 1 && join_with(names2, ',') == filter@ && (forall|k: int| 0 <= k < names2.len() ==> crate::text::lacks(#[trigger] names2[k], ',')) implies names2 == nv by {
                    crate::text::lemma_split_unique(names2, nv, ',');
                }
            }
            if parsed.len() == 0 {
                Err(DemongrepError::ConfigError { details: String::from_str("No valid models specified") })
            } else {
                Ok(parsed)
            }
        },
    }
}

} // verus!
