use crate::artifact::{artifact_of_target, BuildArtifact, BuildArtifactView};
use crate::strutil::push_char;
use vstd::prelude::*;
use vstd::string::StringExecFns;

verus! {

/// The result of one invocation: the root output directory and one artifact
/// record per manifest target, in manifest order.
pub struct BuildResult {
    pub output_root: String,
    pub artifacts: Vec<BuildArtifact>,
}

/// The mathematical value of a [`BuildResult`].
#[verifier::ext_equal]
pub ghost struct BuildResultView {
    pub output_root: Seq<char>,
    pub artifacts: Seq<BuildArtifactView>,
}

/// The mathematical values of a list of artifact records.
pub open spec fn views_of_artifacts(l: Seq<BuildArtifact>) -> Seq<BuildArtifactView> {
    l.map_values(|a: BuildArtifact| a@)
}

/// The artifact records that describe a list of targets, in order.
pub open spec fn artifacts_of_targets(ts: Seq<crate::target::TargetInfo>) -> Seq<
    BuildArtifactView,
> {
    ts.map_values(|t: crate::target::TargetInfo| artifact_of_target(t@))
}

/// The values of a list of artifacts grow one by one as the list does.
proof fn lemma_views_of_artifacts_push(l: Seq<BuildArtifact>, a: BuildArtifact)
    ensures
        views_of_artifacts(l.push(a)) == views_of_artifacts(l).push(a@),
{
    assert(views_of_artifacts(l.push(a)) =~= views_of_artifacts(l).push(a@));
}

/// Taking one more target appends that target's artifact record.
proof fn lemma_artifacts_of_targets_take_snoc(ts: Seq<crate::target::TargetInfo>, i: int)
    requires
        0 <= i < ts.len(),
    ensures
        artifacts_of_targets(ts.take(i + 1)) == artifacts_of_targets(ts.take(i)).push(
            artifact_of_target(ts[i]@),
        ),
{
    assert(ts.take(i + 1) =~= ts.take(i).push(ts[i]));
    assert(artifacts_of_targets(ts.take(i).push(ts[i])) =~= artifacts_of_targets(
        ts.take(i),
    ).push(artifact_of_target(ts[i]@)));
}

impl View for BuildResult {
    type V = BuildResultView;

    open spec fn view(&self) -> BuildResultView {
        BuildResultView { output_root: self.output_root@, artifacts: views_of_artifacts(
            self.artifacts@,
        ) }
    }
}

/// The lower-case hexadecimal digit with value `d`.
pub open spec fn hex_lower(d: int) -> char {
    if d == 0 {
        '0'
    } else if d == 1 {
        '1'
    } else if d == 2 {
        '2'
    } else if d == 3 {
        '3'
    } else if d == 4 {
        '4'
    } else if d == 5 {
        '5'
    } else if d == 6 {
        '6'
    } else if d == 7 {
        '7'
    } else if d == 8 {
        '8'
    } else if d == 9 {
        '9'
    } else if d == 10 {
        'a'
    } else if d == 11 {
        'b'
    } else if d == 12 {
        'c'
    } else if d == 13 {
        'd'
    } else if d == 14 {
        'e'
    } else {
        'f'
    }
}

/// The encoded form of one character inside an encoded string: quotes,
/// backslashes and the named control characters take their two-character
/// escapes, every other control character takes its `\u00XX` escape, and
/// every other character stands for itself.
pub open spec fn escape_char(c: char) -> Seq<char> {
    if c == '"' {
        seq!['\\', '"']
    } else if c == '\\' {
        seq!['\\', '\\']
    } else if c == '\u{8}' {
        seq!['\\', 'b']
    } else if c == '\u{c}' {
        seq!['\\', 'f']
    } else if c == '\n' {
        seq!['\\', 'n']
    } else if c == '\r' {
        seq!['\\', 'r']
    } else if c == '\t' {
        seq!['\\', 't']
    } else if (c as u32) < 0x20 {
        seq!['\\', 'u', '0', '0', hex_lower(c as int / 16), hex_lower(c as int % 16)]
    } else {
        seq![c]
    }
}

/// The encoded form of a string's characters.
pub open spec fn escape_string(s: Seq<char>) -> Seq<char>
    decreases s.len(),
{
    if s.len() == 0 {
        Seq::empty()
    } else {
        escape_char(s[0]) + escape_string(s.drop_first())
    }
}

/// Escaping a string one character longer appends that character's escape.
proof fn lemma_escape_string_snoc(s: Seq<char>, c: char)
    ensures
        escape_string(s.push(c)) == escape_string(s) + escape_char(c),
    decreases s.len(),
{
    let p = s.push(c);
    if s.len() == 0 {
        assert(p[0] == c);
        assert(p.drop_first() =~= Seq::<char>::empty());
        assert(escape_string(p) == escape_char(c) + escape_string(p.drop_first()));
        assert(escape_string(p) =~= escape_string(s) + escape_char(c));
    } else {
        assert(p[0] == s[0]);
        assert(p.drop_first() =~= s.drop_first().push(c));
        lemma_escape_string_snoc(s.drop_first(), c);
        assert(escape_string(p) == escape_char(s[0]) + (escape_string(s.drop_first())
            + escape_char(c)));
        assert(escape_string(p) =~= escape_string(s) + escape_char(c));
    }
}

/// The textual form of a boolean.
pub open spec fn bool_chars(b: bool) -> Seq<char> {
    if b {
        "true"@
    } else {
        "false"@
    }
}

/// The encoded form of one artifact record.
pub open spec fn encode_artifact(a: BuildArtifactView) -> Seq<char> {
    "{\"output_name\":\""@ + escape_string(a.output_name) + "\",\"is_lib\":"@ + bool_chars(a.is_lib)
        + ",\"is_dylib\":"@ + bool_chars(a.is_dylib) + ",\"is_cdylib\":"@ + bool_chars(a.is_cdylib)
        + "}"@
}

/// The encoded form of a list of artifact records, separated by commas.
pub open spec fn encode_artifact_list(l: Seq<BuildArtifactView>) -> Seq<char>
    decreases l.len(),
{
    if l.len() == 0 {
        Seq::empty()
    } else if l.len() == 1 {
        encode_artifact(l[0])
    } else {
        encode_artifact(l[0]) + ","@ + encode_artifact_list(l.drop_first())
    }
}

/// Encoding a list one artifact longer appends a comma (unless the list was
/// empty) and that artifact's encoding.
proof fn lemma_encode_artifact_list_snoc(l: Seq<BuildArtifactView>, a: BuildArtifactView)
    ensures
        l.len() == 0 ==> encode_artifact_list(l.push(a)) == encode_artifact(a),
        l.len() > 0 ==> encode_artifact_list(l.push(a)) == encode_artifact_list(l) + ","@
            + encode_artifact(a),
    decreases l.len(),
{
    if l.len() == 0 {
        assert(l.push(a)[0] == a);
        assert(encode_artifact_list(l.push(a)) == encode_artifact(a));
    } else {
        lemma_encode_artifact_list_snoc(l.drop_first(), a);
        assert(l.push(a).drop_first() =~= l.drop_first().push(a));
        assert(l.push(a)[0] == l[0]);
        assert(encode_artifact_list(l.push(a)) =~= encode_artifact_list(l) + ","@
            + encode_artifact(a));
    }
}

/// The encoded form of a build result: the output root, then the artifact
/// list, under their field names.
pub open spec fn encode_build_result(r: BuildResultView) -> Seq<char> {
    "{\"output_root\":\""@ + escape_string(r.output_root) + "\",\"artifacts\":["@
        + encode_artifact_list(r.artifacts) + "]}"@
}

/// The lower-case hexadecimal digit with value `d`.
fn hex_char(d: u32) -> (r: char)
    requires
        d < 16,
    ensures
        r == hex_lower(d as int),
{
    match d {
        0 => '0',
        1 => '1',
        2 => '2',
        3 => '3',
        4 => '4',
        5 => '5',
        6 => '6',
        7 => '7',
        8 => '8',
        9 => '9',
        10 => 'a',
        11 => 'b',
        12 => 'c',
        13 => 'd',
        14 => 'e',
        _ => 'f',
    }
}

/// Appends the escape of one character.
fn push_escaped_char(out: &mut String, c: char)
    ensures
        final(out)@ == old(out)@ + escape_char(c),
{
    if c == '"' {
        push_char(out, '\\');
        push_char(out, '"');
    } else if c == '\\' {
        push_char(out, '\\');
        push_char(out, '\\');
    } else if c == '\u{8}' {
        push_char(out, '\\');
        push_char(out, 'b');
    } else if c == '\u{c}' {
        push_char(out, '\\');
        push_char(out, 'f');
    } else if c == '\n' {
        push_char(out, '\\');
        push_char(out, 'n');
    } else if c == '\r' {
        push_char(out, '\\');
        push_char(out, 'r');
    } else if c == '\t' {
        push_char(out, '\\');
        push_char(out, 't');
    } else if (c as u32) < 0x20 {
        push_char(out, '\\');
        push_char(out, 'u');
        push_char(out, '0');
        push_char(out, '0');
        push_char(out, hex_char(c as u32 / 16));
        push_char(out, hex_char(c as u32 % 16));
    } else {
        push_char(out, c);
    }
    proof {
        assert(out@ =~= old(out)@ + escape_char(c));
    }
}

/// Appends the escaped form of a whole string.
fn push_escaped_str(out: &mut String, s: &str)
    ensures
        final(out)@ == old(out)@ + escape_string(s@),
{
    let n = s.unicode_len();
    let mut i: usize = 0;
    proof {
        assert(out@ =~= old(out)@ + escape_string(s@.take(0)));
    }
    while i < n
        invariant
            n == s@.len(),
            i <= n,
            out@ == old(out)@ + escape_string(s@.take(i as int)),
        decreases n - i,
    {
        let c = s.get_char(i);
        push_escaped_char(out, c);
        proof {
            assert(s@.take(i as int).push(c) =~= s@.take(i + 1 as int));
            lemma_escape_string_snoc(s@.take(i as int), c);
            assert(out@ =~= old(out)@ + escape_string(s@.take(i + 1 as int)));
        }
        i = i + 1;
    }
    proof {
        assert(s@.take(n as int) =~= s@);
    }
}

/// Appends the textual form of a boolean.
fn push_bool(out: &mut String, b: bool)
    ensures
        final(out)@ == old(out)@ + bool_chars(b),
{
    if b {
        out.append("true");
    } else {
        out.append("false");
    }
}

/// Appends the encoding of one artifact record.
fn push_artifact(out: &mut String, a: &BuildArtifact)
    ensures
        final(out)@ == old(out)@ + encode_artifact(a@),
{
    out.append("{\"output_name\":\"");
    push_escaped_str(out, a.output_name.as_str());
    out.append("\",\"is_lib\":");
    push_bool(out, a.is_lib);
    out.append(",\"is_dylib\":");
    push_bool(out, a.is_dylib);
    out.append(",\"is_cdylib\":");
    push_bool(out, a.is_cdylib);
    out.append("}");
    proof {
        assert(out@ =~= old(out)@ + encode_artifact(a@));
    }
}

impl BuildResult {
    /// A build result for the given output root, with no artifacts yet.
    pub fn from_build_result(output_root: String) -> (r: Self)
        ensures
            r@.output_root == output_root@,
            r@.artifacts == Seq::<BuildArtifactView>::empty(),
    {
        let r = Self { output_root, artifacts: Vec::new() };
        proof {
            assert(r@.artifacts =~= Seq::<BuildArtifactView>::empty());
        }
        r
    }

    /// Appends one artifact record for each given target, in order.
    pub fn push_artifacts_for_targets(&mut self, targets: &Vec<crate::target::TargetInfo>)
        ensures
            final(self)@.output_root == old(self)@.output_root,
            final(self)@.artifacts == old(self)@.artifacts + artifacts_of_targets(targets@),
    {
        let n = targets.len();
        let mut i: usize = 0;
        while i < n
            invariant
                n == targets@.len(),
                i <= n,
                self@.output_root == old(self)@.output_root,
                self@.artifacts == old(self)@.artifacts + artifacts_of_targets(
                    targets@.take(i as int),
                ),
            decreases n - i,
        {
            let artifact = BuildArtifact::from_target(&targets[i]);
            let ghost prev = self.artifacts@;
            self.artifacts.push(artifact);
            proof {
                lemma_views_of_artifacts_push(prev, artifact);
                lemma_artifacts_of_targets_take_snoc(targets@, i as int);
                assert(self@.artifacts =~= old(self)@.artifacts + artifacts_of_targets(
                    targets@.take(i + 1 as int),
                ));
            }
            i = i + 1;
        }
        proof {
            assert(targets@.take(n as int) =~= targets@);
        }
    }

    /// The encoded textual form of this build result.
    pub fn to_json(&self) -> (r: String)
        ensures
            r@ == encode_build_result(self@),
    {
        let mut out = String::new();
        out.append("{\"output_root\":\"");
        push_escaped_str(&mut out, self.output_root.as_str());
        out.append("\",\"artifacts\":[");
        let ghost head = out@;
        let n = self.artifacts.len();
        let mut i: usize = 0;
        while i < n
            invariant
                n == self.artifacts@.len(),
                i <= n,
                out@ == head + encode_artifact_list(
                    views_of_artifacts(self.artifacts@.take(i as int)),
                ),
            decreases n - i,
        {
            if i > 0 {
                out.append(",");
            }
            push_artifact(&mut out, &self.artifacts[i]);
            proof {
                let prefix = views_of_artifacts(self.artifacts@.take(i as int));
                lemma_encode_artifact_list_snoc(prefix, self.artifacts@[i as int]@);
                assert(views_of_artifacts(self.artifacts@.take(i + 1 as int)) =~= prefix.push(
                    self.artifacts@[i as int]@,
                ));
                assert(out@ =~= head + encode_artifact_list(
                    views_of_artifacts(self.artifacts@.take(i + 1 as int)),
                ));
            }
            i = i + 1;
        }
        out.append("]}");
        proof {
            assert(self.artifacts@.take(n as int) =~= self.artifacts@);
            assert(out@ =~= encode_build_result(self@));
        }
        out
    }
}

} // verus!
