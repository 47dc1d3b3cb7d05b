//! File-type configuration: magic patterns and handler settings.
use vstd::prelude::*;
use vstd::string::*;
use vstd::utf8::encode_utf8;

use crate::digest::{hex_decode, hex_decoded};
use crate::error::FastCarveError;
use crate::scanner::Pattern;

verus! {

/// A named magic pattern, written as hex digits.
#[derive(Debug, Clone)]
pub struct PatternConfig {
    pub id: String,
    pub hex: String,
}

#[derive(Debug, Clone)]
pub struct FileTypeConfig {
    pub id: String,
    pub extension: String,
    pub header_patterns: Vec<PatternConfig>,
    pub min_size: u64,
    /// 0 means no cap.
    pub max_size: u64,
    /// Which handler carves this type.
    pub validator: String,
}

/// The bytes a pattern's hex text spells, if it spells any.
pub open spec fn pattern_bytes(p: PatternConfig) -> Option<Seq<u8>> {
    hex_decoded(encode_utf8(p.hex@))
}

/// `p` was decoded from pattern `b` of file type `a`.
pub open spec fn pattern_from(p: Pattern, configs: Seq<FileTypeConfig>, a: int, b: int) -> bool {
    &&& 0 <= a < configs.len()
    &&& 0 <= b < configs[a].header_patterns@.len()
    &&& p.id@ == configs[a].header_patterns@[b].id@
    &&& p.file_type_id@ == configs[a].id@
    &&& Some(p.bytes@) == pattern_bytes(configs[a].header_patterns@[b])
}

/// Decodes one configured pattern for the file type `type_id`.
pub fn decode_pattern(p: &PatternConfig, type_id: &String) -> (r: Result<Pattern, FastCarveError>)
    ensures
        match pattern_bytes(*p) {
            None => r matches Err(FastCarveError::Config(_)),
            Some(b) => r matches Ok(pat) && pat.bytes@ == b && pat.id@ == p.id@
                && pat.file_type_id@ == type_id@,
        },
{
    match hex_decode(p.hex.as_str().as_bytes()) {
        None => Err(
            FastCarveError::Config(
                String::from_str("pattern is not hex: ").concat(p.id.as_str()),
            ),
        ),
        Some(bytes) => Ok(Pattern { id: p.id.clone(), file_type_id: type_id.clone(), bytes }),
    }
}

/// Where each configured pattern sits, as (file type, pattern) positions,
/// type by type from type `a` on, patterns in order within a type.
pub open spec fn slots_from(configs: Seq<FileTypeConfig>, a: int) -> Seq<(int, int)>
    decreases configs.len() - a,
{
    if a < 0 || a >= configs.len() {
        Seq::empty()
    } else {
        Seq::new(configs[a].header_patterns@.len(), |b: int| (a, b)) + slots_from(configs, a + 1)
    }
}

/// Positions of the patterns of type `a` from pattern `j` on.
pub open spec fn slots_of_type(configs: Seq<FileTypeConfig>, a: int, j: int) -> Seq<(int, int)> {
    Seq::new((configs[a].header_patterns@.len() - j) as nat, |b: int| (a, j + b))
}

/// All header patterns of the configured file types, type by type, in
/// configuration order. Fails when any pattern is not valid hex.
pub fn parse_patterns(configs: &Vec<FileTypeConfig>) -> (r: Result<Vec<Pattern>, FastCarveError>)
    ensures
        r is Ok <==> (forall|i: int, j: int|
            0 <= i < configs@.len() && 0 <= j < configs@[i].header_patterns@.len()
                ==> #[trigger] pattern_bytes(configs@[i].header_patterns@[j]) is Some),
        r matches Err(e) ==> e is Config,
        r matches Ok(pats) ==> pats@.len() == slots_from(configs@, 0).len() && forall|k: int|
            0 <= k < pats@.len() ==> #[trigger] pattern_from(
                pats@[k],
                configs@,
                slots_from(configs@, 0)[k].0,
                slots_from(configs@, 0)[k].1,
            ),
{
    let mut out: Vec<Pattern> = Vec::new();
    let ghost mut acc: Seq<(int, int)> = Seq::empty();
    let mut i: usize = 0;
    while i < configs.len()
        invariant
            i <= configs@.len(),
            forall|a: int, j: int|
                0 <= a < i && 0 <= j < configs@[a].header_patterns@.len()
                    ==> #[trigger] pattern_bytes(configs@[a].header_patterns@[j]) is Some,
            acc + slots_from(configs@, i as int) == slots_from(configs@, 0),
            out@.len() == acc.len(),
            forall|k: int|
                0 <= k < out@.len() ==> #[trigger] pattern_from(out@[k], configs@, acc[k].0, acc[k].1),
        decreases configs.len() - i,
    {
        let c = &configs[i];
        proof {
            assert(slots_from(configs@, i as int) == slots_of_type(configs@, i as int, 0) + slots_from(
                configs@,
                i + 1,
            )) by {
                assert(slots_of_type(configs@, i as int, 0) =~= Seq::new(
                    configs@[i as int].header_patterns@.len(),
                    |b: int| (i as int, b),
                ));
            }
        }
        let mut j: usize = 0;
        while j < c.header_patterns.len()
            invariant
                i < configs@.len(),
                c == configs@[i as int],
                j <= c.header_patterns@.len(),
                forall|a: int, b: int|
                    0 <= a < i && 0 <= b < configs@[a].header_patterns@.len()
                        ==> #[trigger] pattern_bytes(configs@[a].header_patterns@[b]) is Some,
                forall|b: int|
                    0 <= b < j ==> #[trigger] pattern_bytes(c.header_patterns@[b]) is Some,
                acc + slots_of_type(configs@, i as int, j as int) + slots_from(configs@, i + 1)
                    == slots_from(configs@, 0),
                out@.len() == acc.len(),
                forall|k: int|
                    0 <= k < out@.len() ==> #[trigger] pattern_from(out@[k], configs@, acc[k].0, acc[k].1),
            decreases c.header_patterns.len() - j,
        {
            let p = &c.header_patterns[j];
            match decode_pattern(p, &c.id) {
                Err(e) => {
                    return Err(e);
                },
                Ok(pat) => {
                    let ghost prev = acc;
                    out.push(pat);
                    proof {
                        acc = acc.push((i as int, j as int));
                        assert(slots_of_type(configs@, i as int, j as int) =~= seq![(i as int, j as int)]
                            + slots_of_type(configs@, i as int, j + 1));
                        assert(acc + slots_of_type(configs@, i as int, j + 1) =~= prev
                            + slots_of_type(configs@, i as int, j as int));
                        let k = out@.len() - 1;
                        assert(pattern_from(out@[k], configs@, acc[k].0, acc[k].1));
                    }
                },
            }
            j = j + 1;
        }
        proof {
            assert(slots_of_type(configs@, i as int, j as int) =~= Seq::<(int, int)>::empty());
            assert(acc + slots_of_type(configs@, i as int, j as int) =~= acc);
        }
        i = i + 1;
    }
    proof {
        assert(slots_from(configs@, i as int) =~= Seq::<(int, int)>::empty());
        assert(acc + slots_from(configs@, i as int) =~= acc);
    }
    Ok(out)
}

} // verus!
