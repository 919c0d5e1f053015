//! The boot-time reapply plan: the choices recorded in the state, replayed
//! in dependency order, and only those that were applied.
use vstd::prelude::*;

use crate::capabilities::{allows_reapply_spec, DeviceCapabilities};
use crate::catalog::JITTER_FEATURES;
use crate::domain::{get_flag, ExtraAction, ExtraView, ReapplyAction, ReapplyView, StoredSettings, StoredView};
use crate::text::{eq_str, owned};

verus! {

broadcast use vstd::string::group_string_axioms;

/// The views of a list of steps.
pub open spec fn steps_view(v: Seq<ReapplyAction>) -> Seq<ReapplyView> {
    v.map_values(|a: ReapplyAction| a@)
}

/// `[x]` when `b` holds, else nothing.
pub open spec fn step_if(b: bool, x: ReapplyView) -> Seq<ReapplyView> {
    if b {
        seq![x]
    } else {
        Seq::empty()
    }
}

/// The step that replays feature `k`, when it was configured: io keeps its
/// scheduler and tone only when enabled, wifi its no-restart choice.
pub open spec fn jitter_step(s: StoredView, k: int) -> Seq<ReapplyView> {
    let f = JITTER_FEATURES[k]@;
    let enabled = s.jitter_values[k];
    let io = f == "io"@ && enabled;
    step_if(
        s.jitter_configured[k],
        ReapplyView::Extra(
            ExtraView::JitterSet {
                enabled,
                feature: f,
                scheduler: if io {
                    Some(s.io_scheduler)
                } else {
                    None
                },
                tone: if io {
                    Some(s.io_tone)
                } else {
                    None
                },
                wifi_no_restart: f == "wifi"@ && enabled && s.wifi_no_restart,
            },
        ),
    )
}

/// The jitter steps of the first `n` features, in catalog order.
pub open spec fn jitter_steps(s: StoredView, n: int) -> Seq<ReapplyView>
    decreases n,
{
    if n <= 0 {
        Seq::empty()
    } else {
        jitter_steps(s, n - 1) + jitter_step(s, n - 1)
    }
}

/// The resampler step: the custom group, or the named preset.
pub open spec fn resampler_step(s: StoredView) -> ReapplyView {
    ReapplyView::Extra(
        if s.resampler_preset == "custom"@ {
            ExtraView::ResamplerCustom {
                bypass: s.resampler_bypass,
                cheat: s.resampler_cheat,
                stop_band: s.resampler_stop_band,
                half_length: s.resampler_half_length,
                percent: s.resampler_percent,
            }
        } else {
            ExtraView::ResamplerPreset { preset: s.resampler_preset }
        },
    )
}

/// What a boot replays: nothing unless automatic reapply is on; then the
/// Bluetooth HAL, the policy, the resampler, the USB period and each jitter
/// feature, each only if it was configured.
pub open spec fn reapply_plan_spec(s: StoredView) -> Seq<ReapplyView> {
    if !s.auto_reapply {
        Seq::empty()
    } else {
        step_if(
            s.bluetooth_hal_configured,
            ReapplyView::Extra(ExtraView::BluetoothHal { action: s.bluetooth_hal }),
        ) + step_if(s.policy_configured, ReapplyView::Policy(s.policy)) + step_if(
            s.resampler_configured,
            resampler_step(s),
        ) + step_if(
            s.usb_period_configured,
            ReapplyView::Extra(ExtraView::UsbPeriodSet { period: s.usb_period }),
        ) + jitter_steps(s, 11)
    }
}

/// A boot replays the recorded resampler choice: with automatic reapply on
/// and a preset other than `custom` recorded, the plan holds a step that
/// sets exactly that preset; recording a preset action and then building
/// the plan gives a step that sets the preset recorded.
pub proof fn lemma_reapply_replays_recorded_preset(s: StoredView, p: Seq<char>)
    ensures
        s.auto_reapply && s.resampler_configured && s.resampler_preset != "custom"@
            ==> reapply_plan_spec(s).contains(
            ReapplyView::Extra(ExtraView::ResamplerPreset { preset: s.resampler_preset }),
        ),
        ({
            let t = crate::state::update_extra_spec(s, ExtraView::ResamplerPreset { preset: p }).0;
            s.auto_reapply && t.resampler_preset != "custom"@ ==> t.resampler_configured
                && reapply_plan_spec(t).contains(
                ReapplyView::Extra(ExtraView::ResamplerPreset { preset: t.resampler_preset }),
            ) && t.resampler_preset == crate::catalog::canonical_preset(p)
        }),
{
    let t = crate::state::update_extra_spec(s, ExtraView::ResamplerPreset { preset: p }).0;
    if s.auto_reapply && s.resampler_configured && s.resampler_preset != "custom"@ {
        lemma_plan_has_resampler_step(s);
    }
    if s.auto_reapply && t.resampler_preset != "custom"@ {
        lemma_plan_has_resampler_step(t);
    }
}

proof fn lemma_plan_has_resampler_step(s: StoredView)
    requires
        s.auto_reapply,
        s.resampler_configured,
    ensures
        reapply_plan_spec(s).contains(resampler_step(s)),
{
    let a = step_if(
        s.bluetooth_hal_configured,
        ReapplyView::Extra(ExtraView::BluetoothHal { action: s.bluetooth_hal }),
    ) + step_if(s.policy_configured, ReapplyView::Policy(s.policy));
    let b = step_if(s.resampler_configured, resampler_step(s));
    let c = step_if(
        s.usb_period_configured,
        ReapplyView::Extra(ExtraView::UsbPeriodSet { period: s.usb_period }),
    ) + jitter_steps(s, 11);
    assert(reapply_plan_spec(s) =~= a + b + c);
    assert((a + b + c)[a.len() as int] == resampler_step(s));
}

fn push_step(plan: &mut Vec<ReapplyAction>, a: ReapplyAction)
    ensures
        steps_view(final(plan)@) == steps_view(old(plan)@).push(a@),
{
    plan.push(a);
    assert(steps_view(plan@) =~= steps_view(old(plan)@).push(a@));
}

/// The steps that replay the recorded choices at boot.
pub fn build_reapply_plan(stored: &StoredSettings) -> (r: Vec<ReapplyAction>)
    ensures
        steps_view(r@) == reapply_plan_spec(stored@),
{
    let mut plan: Vec<ReapplyAction> = Vec::new();
    if !stored.auto_reapply {
        assert(steps_view(plan@) =~= Seq::<ReapplyView>::empty());
        return plan;
    }
    let s = stored;
    let ghost base = Seq::<ReapplyView>::empty();
    assert(steps_view(plan@) =~= base);
    if s.bluetooth_hal_configured {
        push_step(
            &mut plan,
            ReapplyAction::Extra(ExtraAction::BluetoothHal { action: s.bluetooth_hal.clone() }),
        );
    }
    let ghost p1 = step_if(
        s@.bluetooth_hal_configured,
        ReapplyView::Extra(ExtraView::BluetoothHal { action: s@.bluetooth_hal }),
    );
    assert(steps_view(plan@) =~= p1);
    if s.policy_configured {
        push_step(&mut plan, ReapplyAction::Policy(s.policy.copied()));
    }
    let ghost p2 = p1 + step_if(s@.policy_configured, ReapplyView::Policy(s@.policy));
    assert(steps_view(plan@) =~= p2);
    if s.resampler_configured {
        let action = if eq_str(s.resampler_preset.as_str(), "custom") {
            ExtraAction::ResamplerCustom {
                bypass: s.resampler_bypass.clone(),
                cheat: s.resampler_cheat,
                stop_band: s.resampler_stop_band,
                half_length: s.resampler_half_length,
                percent: s.resampler_percent,
            }
        } else {
            ExtraAction::ResamplerPreset { preset: s.resampler_preset.clone() }
        };
        push_step(&mut plan, ReapplyAction::Extra(action));
    }
    let ghost p3 = p2 + step_if(s@.resampler_configured, resampler_step(s@));
    assert(steps_view(plan@) =~= p3);
    if s.usb_period_configured {
        push_step(&mut plan, ReapplyAction::Extra(ExtraAction::UsbPeriodSet { period: s.usb_period }));
    }
    let ghost p4 = p3 + step_if(
        s@.usb_period_configured,
        ReapplyView::Extra(ExtraView::UsbPeriodSet { period: s@.usb_period }),
    );
    assert(steps_view(plan@) =~= p4);
    let features = JITTER_FEATURES;
    let mut k: usize = 0;
    assert(p4 + jitter_steps(s@, 0) =~= p4);
    while k < 11
        invariant
            k <= 11,
            features == JITTER_FEATURES,
            steps_view(plan@) == p4 + jitter_steps(s@, k as int),
        decreases 11 - k,
    {
        let ghost before = steps_view(plan@);
        if get_flag(&s.jitter_configured, k) {
            let enabled = get_flag(&s.jitter_values, k);
            let feature = features[k];
            let io = eq_str(feature, "io") && enabled;
            push_step(
                &mut plan,
                ReapplyAction::Extra(
                    ExtraAction::JitterSet {
                        enabled,
                        feature: owned(feature),
                        scheduler: if io {
                            Some(s.io_scheduler.clone())
                        } else {
                            None
                        },
                        tone: if io {
                            Some(s.io_tone.clone())
                        } else {
                            None
                        },
                        wifi_no_restart: eq_str(feature, "wifi") && enabled && s.wifi_no_restart,
                    },
                ),
            );
        }
        assert(steps_view(plan@) =~= p4 + jitter_steps(s@, k + 1));
        k += 1;
    }
    plan
}

/// The steps of a plan that the device allows, in order.
pub fn filter_reapply_plan(plan: Vec<ReapplyAction>, caps: &DeviceCapabilities) -> (r: Vec<
    ReapplyAction,
>)
    ensures
        steps_view(r@) == steps_view(plan@).filter(|a: ReapplyView| allows_reapply_spec(caps@, a)),
{
    let mut out: Vec<ReapplyAction> = Vec::new();
    let mut rest = plan;
    let ghost all = steps_view(rest@);
    let ghost keep = |a: ReapplyView| allows_reapply_spec(caps@, a);
    let mut i: usize = 0;
    let n = rest.len();
    assert(steps_view(out@) =~= all.take(0).filter(keep));
    while i < n
        invariant
            i <= n,
            n == all.len(),
            rest@.len() == n - i,
            forall|j: int| 0 <= j < n - i ==> (#[trigger] rest@[j])@ == all[i + j],
            steps_view(out@) == all.take(i as int).filter(keep),
            keep == (|a: ReapplyView| allows_reapply_spec(caps@, a)),
        decreases n - i,
    {
        let ghost before = rest@;
        let a = rest.remove(0);
        assert(a@ == all[i as int]);
        assert forall|j: int| 0 <= j < n - i - 1 implies (#[trigger] rest@[j])@ == all[i + 1 + j] by {
            assert(rest@[j] == before[j + 1]);
        }
        assert(all.take(i + 1).drop_last() =~= all.take(i as int));
        if caps.allows_reapply(&a) {
            push_step(&mut out, a);
        }
        proof {
            reveal(Seq::filter);
            assert(all.take(i + 1).last() == all[i as int]);
        }
        assert(steps_view(out@) =~= all.take(i + 1).filter(keep));
        i += 1;
    }
    assert(all.take(n as int) =~= all);
    out
}

} // verus!
