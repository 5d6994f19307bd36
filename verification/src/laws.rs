//! The laws of content addressing and interpretation, stated over the
//! models that the library's contracts use.

use vstd::prelude::*;
use crate::builder::{box_model, empty_box, BoxModel, OCABox};
use crate::bundle::{
    bundle_model, bundle_of, bundle_wf, bundle_wire, overlays_model, Bundle,
};
use crate::capture_base::{cb_content, cb_digest, CBModel};
use crate::command::{cmd_model, CmdModel, Command};
use crate::errors::Error;
use crate::interpreter::{apply_command, spec_apply};
use crate::overlay::{ov_canon_with, ov_cb, ov_digest, ov_digest_field, overlay_model, OverlayModel};

verus! {

/// Determinism of content addressing: capture bases with the same
/// attributes, in the same order, and the same classification carry the
/// same identifier.
pub proof fn lemma_digest_deterministic(a: CBModel, b: CBModel)
    requires
        a.attributes == b.attributes,
        a.classification == b.classification,
    ensures
        cb_digest(a) == cb_digest(b),
{
    assert(a =~= b);
}

/// An overlay's identifier is a function of its own content and of the
/// capture base identifier it targets alone, and the capture base
/// identifier is a function of the capture base content alone: changing
/// one overlay's content never moves a sibling's digest, nor the capture
/// base digest.
pub proof fn lemma_sibling_digests_independent(b1: Bundle, b2: Bundle, i: int)
    requires
        bundle_wf(b1),
        bundle_wf(b2),
        cb_content(b1.capture_base) == cb_content(b2.capture_base),
        0 <= i < b1.overlays@.len(),
        0 <= i < b2.overlays@.len(),
        overlay_model(b1.overlays@[i]) == overlay_model(b2.overlays@[i]),
    ensures
        b1.capture_base.digest@ == b2.capture_base.digest@,
        ov_digest_field(b1.overlays@[i]) == ov_digest_field(b2.overlays@[i]),
{
}

/// Round-trip stability: every identifier and the canonical text of a
/// well-formed bundle are functions of its content alone. Any reading
/// that reproduces the content of a serialized bundle reproduces its
/// digests and its canonical text exactly.
pub proof fn lemma_wire_of_content(b1: Bundle, b2: Bundle)
    requires
        bundle_wf(b1),
        bundle_wf(b2),
        bundle_model(b1) == bundle_model(b2),
    ensures
        b1.capture_base.digest@ == b2.capture_base.digest@,
        bundle_wire(b1) == bundle_wire(b2),
{
    assert(cb_content(b1.capture_base) == cb_content(b2.capture_base));
    assert(overlays_model(b1.overlays@) == overlays_model(b2.overlays@));
    assert(overlays_model(b1.overlays@).len() == b1.overlays@.len());
    assert(overlays_model(b2.overlays@).len() == b2.overlays@.len());
    let n = b1.overlays@.len() as int;
    assert forall|i: int| 0 <= i < n implies overlay_model(#[trigger] b1.overlays@[i])
        == overlay_model(b2.overlays@[i]) by {
        assert(overlays_model(b1.overlays@)[i] == overlay_model(b1.overlays@[i]));
        assert(overlays_model(b2.overlays@)[i] == overlay_model(b2.overlays@[i]));
    }
    let items1 = Seq::new(
        b1.overlays@.len(),
        |i: int| ov_canon_with(
            overlay_model(b1.overlays@[i]),
            ov_cb(b1.overlays@[i]),
            ov_digest_field(b1.overlays@[i]),
        ),
    );
    let items2 = Seq::new(
        b2.overlays@.len(),
        |i: int| ov_canon_with(
            overlay_model(b2.overlays@[i]),
            ov_cb(b2.overlays@[i]),
            ov_digest_field(b2.overlays@[i]),
        ),
    );
    assert forall|i: int| 0 <= i < n implies items1[i] == items2[i] by {
        assert(ov_wf_pair(b1, b2, i));
    }
    assert(items1 =~= items2);
}

/// Both overlays at one position are sealed alike: same content, same
/// capture base reference, same digest.
pub open spec fn ov_wf_pair(b1: Bundle, b2: Bundle, i: int) -> bool {
    &&& overlay_model(b1.overlays@[i]) == overlay_model(b2.overlays@[i])
    &&& ov_cb(b1.overlays@[i]) == ov_cb(b2.overlays@[i])
    &&& ov_digest_field(b1.overlays@[i]) == ov_digest_field(b2.overlays@[i])
}

/// The models of a command list.
pub open spec fn cmds_model(s: Seq<Command>) -> Seq<CmdModel> {
    Seq::new(s.len(), |i: int| cmd_model(s[i]))
}

/// What a command sequence makes of a builder state: commands apply in
/// order, and the first error stops the run.
pub open spec fn spec_apply_seq(m: BoxModel, cs: Seq<CmdModel>) -> Result<BoxModel, Error>
    decreases cs.len(),
{
    if cs.len() == 0 {
        Ok(m)
    } else {
        match spec_apply(m, cs[0]) {
            Err(e) => Err(e),
            Ok(m2) => spec_apply_seq(m2, cs.drop_first()),
        }
    }
}

/// Replays a command sequence from the empty state.
#[verifier::loop_isolation(false)]
pub fn apply_sequence(commands: &Vec<Command>) -> (r: Result<OCABox, Error>)
    ensures
        match r {
            Ok(b) => spec_apply_seq(empty_box(), cmds_model(commands@)) == Result::<
                BoxModel,
                Error,
            >::Ok(box_model(b)),
            Err(e) => spec_apply_seq(empty_box(), cmds_model(commands@)) == Result::<
                BoxModel,
                Error,
            >::Err(e),
        },
{
    let ghost cms = cmds_model(commands@);
    let mut oca = OCABox::new();
    let n = commands.len();
    let mut i: usize = 0;
    proof {
        assert(cms.skip(0) =~= cms);
    }
    while i < n
        invariant
            i <= n,
            n == commands@.len(),
            spec_apply_seq(empty_box(), cms) == spec_apply_seq(box_model(oca), cms.skip(i as int)),
        decreases n - i,
    {
        proof {
            assert(cms[i as int] == cmd_model(commands@[i as int]));
            assert(cms.skip(i as int)[0] == cms[i as int]);
            assert(cms.skip(i as int).drop_first() =~= cms.skip(i + 1));
        }
        match apply_command(Some(&oca), &commands[i]) {
            Ok(next) => {
                oca = next;
            },
            Err(e) => {
                return Err(e);
            },
        }
        i += 1;
    }
    proof {
        assert(cms.skip(n as int) =~= Seq::<CmdModel>::empty());
    }
    Ok(oca)
}

/// Idempotence of interpretation: replaying one command sequence twice
/// from the empty state yields builders with one model — by
/// `apply_sequence`'s contract — and the bundles they finalize into are
/// byte-identical.
pub proof fn lemma_replay_deterministic(b1: Bundle, b2: Bundle, m1: BoxModel, m2: BoxModel)
    requires
        bundle_wf(b1),
        bundle_wf(b2),
        bundle_model(b1) == bundle_of(m1),
        bundle_model(b2) == bundle_of(m2),
        m1 == m2,
    ensures
        bundle_wire(b1) == bundle_wire(b2),
{
    lemma_wire_of_content(b1, b2);
}

} // verus!
