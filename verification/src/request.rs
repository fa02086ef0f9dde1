use crate::error::BuildError;
use crate::json::{
    parse_bool, parse_bool_exec, parse_number, parse_number_exec, parse_string_rest,
    parse_string_rest_exec, skip_ws, skip_ws_exec,
};
use crate::json::{lemma_digits_end_bounds, lemma_parse_string_rest_bounds, lemma_skip_ws_bounds};
use crate::strutil::{chars_eq_str, chars_to_string, str_to_chars};
use vstd::prelude::*;

verus! {

/// One build request: the manifest to build, whether only library targets
/// were asked for, and a verbosity level.
pub struct BuildConfig {
    pub manifest_path: String,
    pub lib_only: bool,
    pub verbose: usize,
}

/// The mathematical value of a [`BuildConfig`].
#[verifier::ext_equal]
pub ghost struct BuildConfigView {
    pub manifest_path: Seq<char>,
    pub lib_only: bool,
    pub verbose: int,
}

impl View for BuildConfig {
    type V = BuildConfigView;

    open spec fn view(&self) -> BuildConfigView {
        BuildConfigView {
            manifest_path: self.manifest_path@,
            lib_only: self.lib_only,
            verbose: self.verbose as int,
        }
    }
}

/// The fields of a request record seen so far while its members are read.
#[verifier::ext_equal]
pub ghost struct PartialConfig {
    pub manifest_path: Option<Seq<char>>,
    pub lib_only: Option<bool>,
    pub verbose: Option<int>,
}

/// No field seen yet.
pub open spec fn empty_partial() -> PartialConfig {
    PartialConfig { manifest_path: None, lib_only: None, verbose: None }
}

/// The request record a completed set of members yields, if every field
/// was present.
pub open spec fn complete_config(acc: PartialConfig) -> Option<BuildConfigView> {
    match (acc.manifest_path, acc.lib_only, acc.verbose) {
        (Some(mp), Some(lo), Some(vb)) => Some(
            BuildConfigView { manifest_path: mp, lib_only: lo, verbose: vb },
        ),
        _ => None,
    }
}

/// The partial record and end position that one member's value, standing at
/// position `i`, contributes under the given key. A key that repeats, a key
/// the record does not have, or a value of the wrong shape is refused.
pub open spec fn member_value(s: Seq<char>, i: int, key: Seq<char>, acc: PartialConfig) -> Option<
    (PartialConfig, int),
> {
    if key == "manifest_path"@ {
        if acc.manifest_path is Some {
            None
        } else if 0 <= i && i < s.len() && s[i] == '"' {
            match parse_string_rest(s, i + 1) {
                Some(p) => Some(
                    (
                        PartialConfig {
                            manifest_path: Some(p.0),
                            lib_only: acc.lib_only,
                            verbose: acc.verbose,
                        },
                        p.1,
                    ),
                ),
                None => None,
            }
        } else {
            None
        }
    } else if key == "lib_only"@ {
        if acc.lib_only is Some {
            None
        } else {
            match parse_bool(s, i) {
                Some(p) => Some(
                    (
                        PartialConfig {
                            manifest_path: acc.manifest_path,
                            lib_only: Some(p.0),
                            verbose: acc.verbose,
                        },
                        p.1,
                    ),
                ),
                None => None,
            }
        }
    } else if key == "verbose"@ {
        if acc.verbose is Some {
            None
        } else {
            match parse_number(s, i) {
                Some(p) => Some(
                    (
                        PartialConfig {
                            manifest_path: acc.manifest_path,
                            lib_only: acc.lib_only,
                            verbose: Some(p.0),
                        },
                        p.1,
                    ),
                ),
                None => None,
            }
        }
    } else {
        None
    }
}

/// A successfully read member value ends after its starting position and
/// inside the text.
pub proof fn lemma_member_value_bounds(s: Seq<char>, i: int, key: Seq<char>, acc: PartialConfig)
    requires
        0 <= i <= s.len(),
    ensures
        member_value(s, i, key, acc) matches Some(p) ==> i < p.1 <= s.len(),
{
    if key == "manifest_path"@ {
        if 0 <= i && i < s.len() && s[i] == '"' {
            lemma_parse_string_rest_bounds(s, i + 1);
        }
    } else if key == "verbose"@ {
        lemma_digits_end_bounds(s, i);
    }
}

/// The request record and end position that the members standing at
/// position `i` (the opening quote of a key) yield, given the fields `acc`
/// already seen: members separated by commas, each a known key, a colon and
/// a value of the field's shape, closed by a brace, with every field seen
/// exactly once over the whole record.
pub open spec fn parse_members(s: Seq<char>, i: int, acc: PartialConfig) -> Option<
    (BuildConfigView, int),
>
    decreases s.len() - i,
        via parse_members_dec
{
    if i < 0 || i >= s.len() || s[i] != '"' {
        None
    } else {
        match parse_string_rest(s, i + 1) {
            None => None,
            Some(kp) => {
                let j2 = skip_ws(s, kp.1);
                if !(j2 < s.len() && s[j2] == ':') {
                    None
                } else {
                    let j3 = skip_ws(s, j2 + 1);
                    match member_value(s, j3, kp.0, acc) {
                        None => None,
                        Some(av) => {
                            let j5 = skip_ws(s, av.1);
                            if j5 < s.len() && s[j5] == ',' {
                                parse_members(s, skip_ws(s, j5 + 1), av.0)
                            } else if j5 < s.len() && s[j5] == '}' {
                                match complete_config(av.0) {
                                    Some(cfg) => Some((cfg, j5 + 1)),
                                    None => None,
                                }
                            } else {
                                None
                            }
                        },
                    }
                }
            },
        }
    }
}

#[via_fn]
proof fn parse_members_dec(s: Seq<char>, i: int, acc: PartialConfig) {
    if 0 <= i && i < s.len() && s[i] == '"' {
        lemma_parse_string_rest_bounds(s, i + 1);
        match parse_string_rest(s, i + 1) {
            Some(kp) => {
                lemma_skip_ws_bounds(s, kp.1);
                let j2 = skip_ws(s, kp.1);
                if j2 < s.len() && s[j2] == ':' {
                    lemma_skip_ws_bounds(s, j2 + 1);
                    let j3 = skip_ws(s, j2 + 1);
                    lemma_member_value_bounds(s, j3, kp.0, acc);
                    match member_value(s, j3, kp.0, acc) {
                        Some(av) => {
                            lemma_skip_ws_bounds(s, av.1);
                            let j5 = skip_ws(s, av.1);
                            if j5 < s.len() && s[j5] == ',' {
                                lemma_skip_ws_bounds(s, j5 + 1);
                            }
                        },
                        None => {},
                    }
                }
            },
            None => {},
        }
    }
}

/// The request record held in the text, if the text holds exactly one
/// well-formed record: optional whitespace, an opening brace, the three
/// members in any order, a closing brace, and optional trailing whitespace.
pub open spec fn parse_request(s: Seq<char>) -> Option<BuildConfigView> {
    let i0 = skip_ws(s, 0);
    if i0 < s.len() && s[i0] == '{' {
        let i1 = skip_ws(s, i0 + 1);
        match parse_members(s, i1, empty_partial()) {
            Some(p) => if skip_ws(s, p.1) == s.len() {
                Some(p.0)
            } else {
                None
            },
            None => None,
        }
    } else {
        None
    }
}

/// The fields seen so far, as the parser's partial record.
pub open spec fn partial_view(mp: Option<String>, lo: Option<bool>, vb: Option<usize>) -> PartialConfig {
    PartialConfig {
        manifest_path: match mp {
            Some(x) => Some(x@),
            None => None,
        },
        lib_only: lo,
        verbose: match vb {
            Some(v) => Some(v as int),
            None => None,
        },
    }
}

/// The request record and end position of the members standing at position
/// `start`, with no field seen yet.
fn parse_members_exec(s: &Vec<char>, start: usize) -> (r: Option<(BuildConfig, usize)>)
    requires
        start <= s@.len(),
    ensures
        match r {
            Some(p) => parse_members(s@, start as int, empty_partial()) == Some(
                (p.0@, p.1 as int),
            ) && p.1 <= s@.len(),
            None => parse_members(s@, start as int, empty_partial()) is None,
        },
{
    let n = s.len();
    let mut cur = start;
    let mut mp: Option<String> = None;
    let mut lo: Option<bool> = None;
    let mut vb: Option<usize> = None;
    loop
        invariant
            cur <= n,
            n == s@.len(),
            parse_members(s@, start as int, empty_partial()) == parse_members(
                s@,
                cur as int,
                partial_view(mp, lo, vb),
            ),
        decreases n - cur,
    {
        if cur >= n {
            return None;
        }
        if s[cur] != '"' {
            return None;
        }
        let (key, kend) = match parse_string_rest_exec(s, cur + 1) {
            Some(p) => p,
            None => {
                return None;
            },
        };
        let j2 = skip_ws_exec(s, kend);
        if j2 >= n || s[j2] != ':' {
            return None;
        }
        let j3 = skip_ws_exec(s, j2 + 1);
        let vend: usize;
        if chars_eq_str(key.as_slice(), "manifest_path") {
            if mp.is_some() {
                return None;
            }
            if j3 >= n || s[j3] != '"' {
                return None;
            }
            match parse_string_rest_exec(s, j3 + 1) {
                Some(vp) => {
                    mp = Some(chars_to_string(&vp.0));
                    vend = vp.1;
                },
                None => {
                    return None;
                },
            }
        } else if chars_eq_str(key.as_slice(), "lib_only") {
            if lo.is_some() {
                return None;
            }
            match parse_bool_exec(s, j3) {
                Some(bp) => {
                    lo = Some(bp.0);
                    vend = bp.1;
                },
                None => {
                    return None;
                },
            }
        } else if chars_eq_str(key.as_slice(), "verbose") {
            if vb.is_some() {
                return None;
            }
            match parse_number_exec(s, j3) {
                Some(np) => {
                    vb = Some(np.0);
                    vend = np.1;
                },
                None => {
                    return None;
                },
            }
        } else {
            return None;
        }
        let j5 = skip_ws_exec(s, vend);
        if j5 < n && s[j5] == ',' {
            cur = skip_ws_exec(s, j5 + 1);
        } else if j5 < n && s[j5] == '}' {
            let path = match mp {
                Some(x) => x,
                None => {
                    return None;
                },
            };
            let only = match lo {
                Some(x) => x,
                None => {
                    return None;
                },
            };
            let level = match vb {
                Some(x) => x,
                None => {
                    return None;
                },
            };
            let cfg = BuildConfig { manifest_path: path, lib_only: only, verbose: level };
            return Some((cfg, j5 + 1));
        } else {
            return None;
        }
    }
}

impl BuildConfig {
    /// The request record held in the given text, or a decode error if the
    /// text does not hold exactly one well-formed record.
    pub fn from_json(json: &str) -> (r: Result<Self, BuildError>)
        ensures
            match parse_request(json@) {
                Some(v) => r matches Ok(c) && c@ == v,
                None => r matches Err(e) && e == BuildError::RequestDecode,
            },
    {
        let chars = str_to_chars(json);
        let n = chars.len();
        let i0 = skip_ws_exec(&chars, 0);
        if i0 >= n || chars[i0] != '{' {
            return Err(BuildError::RequestDecode);
        }
        let i1 = skip_ws_exec(&chars, i0 + 1);
        match parse_members_exec(&chars, i1) {
            Some((cfg, end)) => {
                if skip_ws_exec(&chars, end) == n {
                    Ok(cfg)
                } else {
                    Err(BuildError::RequestDecode)
                }
            },
            None => Err(BuildError::RequestDecode),
        }
    }
}

} // verus!
