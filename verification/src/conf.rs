//! Rendering of a service's override configuration file, and a model of the
//! override directory that a provisioning run leaves behind.
//!
//! The conf file starts with the literal header line `[Service]` and then
//! holds one transcoded settings line per source line, newline-terminated, in
//! source order. The override directory is modelled as a map from file name
//! to file bytes: a run resets the directory and leaves exactly the one conf
//! file in it, whatever was there before.

use vstd::prelude::*;
use crate::settings::{split_lines, split_lines_spec};
use crate::transcode::{transcode_line, transcoded};

verus! {

/// The literal header line `[Service]`, as bytes.
pub open spec fn header() -> Seq<u8> {
    seq![91u8, 83u8, 101u8, 114u8, 118u8, 105u8, 99u8, 101u8, 93u8]
}

/// A single newline byte.
pub open spec fn newline() -> Seq<u8> {
    seq![10u8]
}

/// The body of the conf file: each settings line transcoded and
/// newline-terminated, in source order.
pub open spec fn conf_body(lines: Seq<Seq<u8>>) -> Seq<u8>
    decreases lines.len(),
{
    if lines.len() == 0 {
        Seq::<u8>::empty()
    } else {
        transcoded(lines[0]) + newline() + conf_body(lines.drop_first())
    }
}

/// The full conf file: the header line followed by the body.
pub open spec fn conf_content(lines: Seq<Seq<u8>>) -> Seq<u8> {
    header() + newline() + conf_body(lines)
}

/// The views of a vector of settings lines.
pub open spec fn lines_view(lines: Seq<Vec<u8>>) -> Seq<Seq<u8>> {
    lines.map_values(|l: Vec<u8>| l@)
}

/// Appending one settings line appends one transcoded directive line to the
/// body.
pub proof fn lemma_conf_body_push(lines: Seq<Seq<u8>>, line: Seq<u8>)
    ensures
        conf_body(lines.push(line)) == conf_body(lines) + transcoded(line) + newline(),
    decreases lines.len(),
{
    if lines.len() == 0 {
        let p = lines.push(line);
        assert(p.len() == 1);
        assert(p[0] == line);
        assert(p.drop_first() =~= Seq::<Seq<u8>>::empty());
        assert(conf_body(p.drop_first()) == Seq::<u8>::empty());
        assert(conf_body(p) == transcoded(line) + newline() + conf_body(p.drop_first()));
        assert(conf_body(lines) == Seq::<u8>::empty());
        assert(conf_body(p) =~= conf_body(lines) + transcoded(line) + newline());
    } else {
        assert(lines.push(line).drop_first() =~= lines.drop_first().push(line));
        lemma_conf_body_push(lines.drop_first(), line);
        assert(lines.push(line)[0] == lines[0]);
        assert(conf_body(lines.push(line)) =~= conf_body(lines) + transcoded(line) + newline());
    }
}

/// The body of a concatenation of settings lines is the concatenation of the
/// bodies: lines keep their relative order.
pub proof fn lemma_conf_body_concat(a: Seq<Seq<u8>>, b: Seq<Seq<u8>>)
    ensures
        conf_body(a + b) == conf_body(a) + conf_body(b),
    decreases b.len(),
{
    if b.len() == 0 {
        assert(a + b =~= a);
        assert(conf_body(a + b) =~= conf_body(a) + conf_body(b));
    } else {
        let b0 = b.drop_last();
        assert(b =~= b0.push(b.last()));
        assert(a + b =~= (a + b0).push(b.last()));
        lemma_conf_body_concat(a, b0);
        lemma_conf_body_push(a + b0, b.last());
        lemma_conf_body_push(b0, b.last());
        assert(conf_body(a + b) =~= conf_body(a) + conf_body(b));
    }
}

/// Ordering: the directive produced from settings line `k` stands in the body
/// after everything produced from earlier lines and before everything
/// produced from later lines — the per-line order of the conf file equals the
/// source order.
pub proof fn lemma_conf_body_order(lines: Seq<Seq<u8>>, k: int)
    requires
        0 <= k < lines.len(),
    ensures
        conf_body(lines) == conf_body(lines.take(k)) + (transcoded(lines[k]) + newline())
            + conf_body(lines.skip(k + 1)),
{
    assert(lines =~= lines.take(k) + (seq![lines[k]] + lines.skip(k + 1)));
    lemma_conf_body_concat(lines.take(k), seq![lines[k]] + lines.skip(k + 1));
    lemma_conf_body_concat(seq![lines[k]], lines.skip(k + 1));
    let single = seq![lines[k]];
    assert(single.len() == 1);
    assert(single[0] == lines[k]);
    assert(single.drop_first() =~= Seq::<Seq<u8>>::empty());
    assert(conf_body(single.drop_first()) == Seq::<u8>::empty());
    assert(conf_body(single) == transcoded(lines[k]) + newline() + conf_body(single.drop_first()));
    assert(conf_body(single) =~= transcoded(lines[k]) + newline());
}

/// Render the conf file for the given settings lines: the `[Service]` header
/// line followed by each line's transcoded form, newline-terminated, in
/// source order.
pub fn render_conf(lines: &Vec<Vec<u8>>) -> (r: Vec<u8>)
    ensures
        r@ == conf_content(lines_view(lines@)),
{
    let mut out: Vec<u8> = Vec::new();
    out.push(91);
    out.push(83);
    out.push(101);
    out.push(114);
    out.push(118);
    out.push(105);
    out.push(99);
    out.push(101);
    out.push(93);
    out.push(10);
    proof {
        assert(out@ =~= header() + newline());
        assert(lines_view(lines@.subrange(0, 0)) =~= Seq::<Seq<u8>>::empty());
    }
    let mut j: usize = 0;
    while j < lines.len()
        invariant
            j <= lines@.len(),
            out@ == header() + newline() + conf_body(lines_view(lines@.subrange(0, j as int))),
        decreases lines@.len() - j,
    {
        let mut t = transcode_line(&lines[j]);
        out.append(&mut t);
        out.push(10);
        proof {
            let pref = lines_view(lines@.subrange(0, j as int));
            assert(lines_view(lines@.subrange(0, j as int + 1)) =~= pref.push(lines@[j as int]@));
            lemma_conf_body_push(pref, lines@[j as int]@);
            assert(out@ =~= header() + newline() + conf_body(
                lines_view(lines@.subrange(0, j as int + 1)),
            ));
        }
        j = j + 1;
    }
    proof {
        assert(lines@.subrange(0, lines@.len() as int) =~= lines@);
    }
    out
}

/// The conf file produced for a settings file with the given bytes.
pub open spec fn conf_of_settings(data: Seq<u8>) -> Seq<u8> {
    conf_content(split_lines_spec(data))
}

/// Render the conf file straight from a settings file's bytes: the file is
/// split into its lines and each line transcoded, in file order, under the
/// `[Service]` header line.
pub fn render_conf_from_settings(data: &Vec<u8>) -> (r: Vec<u8>)
    ensures
        r@ == conf_of_settings(data@),
{
    let lines = split_lines(data);
    proof {
        assert(lines_view(lines@) =~= split_lines_spec(data@));
    }
    render_conf(&lines)
}

/// The override directory, as a map from file name to file bytes, after a
/// provisioning run for a service whose conf file is named `conf_name`: the
/// directory is removed and recreated, so exactly the one freshly rendered
/// conf file remains, whatever `prior` held — including nothing at all.
pub open spec fn override_dir_after_run(
    prior: Map<Seq<u8>, Seq<u8>>,
    conf_name: Seq<u8>,
    lines: Seq<Seq<u8>>,
) -> Map<Seq<u8>, Seq<u8>> {
    Map::<Seq<u8>, Seq<u8>>::empty().insert(conf_name, conf_content(lines))
}

/// Idempotence: a second run for the same service and the same settings lines
/// leaves the override directory exactly as the first run left it —
/// byte-identical conf content and no leftover files.
pub proof fn lemma_override_run_idempotent(
    prior: Map<Seq<u8>, Seq<u8>>,
    conf_name: Seq<u8>,
    lines: Seq<Seq<u8>>,
)
    ensures
        override_dir_after_run(
            override_dir_after_run(prior, conf_name, lines),
            conf_name,
            lines,
        ) == override_dir_after_run(prior, conf_name, lines),
{
}

/// After a run the override directory exists and holds exactly one file: the
/// conf file, with the rendered content — whatever the directory held before,
/// and also when it did not exist at all.
pub proof fn lemma_override_run_exact(
    prior: Map<Seq<u8>, Seq<u8>>,
    conf_name: Seq<u8>,
    lines: Seq<Seq<u8>>,
)
    ensures
        override_dir_after_run(prior, conf_name, lines).dom() =~= set![conf_name],
        override_dir_after_run(prior, conf_name, lines)[conf_name] == conf_content(lines),
{
}

} // verus!
