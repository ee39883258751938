//! The kinds of desktop widgets and the system metrics they can track.
use vstd::prelude::*;

verus! {

/// What a desktop widget shows.
#[derive(Clone, Debug, PartialEq)]
pub enum WidgetKind {
    /// Wall clock. `format` is a strftime-style string.
    Clock { format: String, show_seconds: bool },
    /// Date / month calendar.
    Calendar,
    /// CPU / GPU / memory monitor with a live graph.
    SystemMonitor { metric: Metric },
    /// Current-track music display.
    MusicPlayer,
    /// Current conditions for `location`.
    Weather { location: String },
    /// A grid of app shortcuts.
    QuickLauncher { apps: Vec<String> },
    /// Headlines from an RSS/Atom `url`.
    RssFeed { url: String },
    /// Live preview of a pinned, always-on-desktop app window.
    PinnedApp { app_id: String },
}

/// Which system metric a [`WidgetKind::SystemMonitor`] tracks.
#[derive(Clone, Copy, Debug, PartialEq, Eq, Structural)]
pub enum Metric {
    Cpu,
    Gpu,
    Memory,
    Network,
}

/// The highest of the z values `zs`, or 0 when there are none.
pub open spec fn top_z(zs: Seq<i32>) -> int
    decreases zs.len(),
{
    if zs.len() == 0 {
        0
    } else if zs.len() == 1 {
        zs[0] as int
    } else {
        let m = top_z(zs.drop_last());
        if zs.last() > m { zs.last() as int } else { m }
    }
}

proof fn lemma_top_z(zs: Seq<i32>)
    ensures
        zs.len() > 0 ==> exists|i: int| 0 <= i < zs.len() && zs[i] == top_z(zs),
        forall|i: int| 0 <= i < zs.len() ==> zs[i] <= top_z(zs),
    decreases zs.len(),
{
    if zs.len() > 1 {
        let init = zs.drop_last();
        lemma_top_z(init);
        assert forall|i: int| 0 <= i < init.len() implies #[trigger] zs[i] == init[i] by {}
        if zs.last() <= top_z(init) {
            let k = choose|k: int| 0 <= k < init.len() && init[k] == top_z(init);
            assert(zs[k] == top_z(zs));
        } else {
            assert(zs[zs.len() - 1] == top_z(zs));
        }
    } else if zs.len() == 1 {
        assert(zs[0] == top_z(zs));
    }
}

/// The z value that puts a widget in front of all those with z values `zs`:
/// one above the highest (or 1 on an empty desktop).
pub fn z_above(zs: &Vec<i32>) -> (z: i32)
    requires
        top_z(zs@) < i32::MAX,
    ensures
        z == top_z(zs@) + 1,
        forall|i: int| 0 <= i < zs@.len() ==> zs@[i] < z,
{
    proof {
        lemma_top_z(zs@);
    }
    if zs.len() == 0 {
        return 1;
    }
    let mut m = zs[0];
    let mut i: usize = 1;
    while i < zs.len()
        invariant
            1 <= i <= zs@.len(),
            m == top_z(zs@.take(i as int)),
        decreases zs.len() - i,
    {
        proof {
            assert(zs@.take(i as int + 1).drop_last() =~= zs@.take(i as int));
        }
        if zs[i] > m {
            m = zs[i];
        }
        i += 1;
    }
    proof {
        assert(zs@.take(zs@.len() as int) =~= zs@);
        assert(zs@.take(1) =~= seq![zs@[0]]);
    }
    m + 1
}

/// Among the widgets at the point (`hit[i]` for widget `i`), the one in
/// front: the highest z, the last listed among equals.
pub open spec fn topmost_spec(zs: Seq<i32>, hit: Seq<bool>) -> Option<int>
    decreases zs.len(),
{
    if zs.len() == 0 {
        None
    } else {
        let n = zs.len() - 1;
        let rest = topmost_spec(zs.drop_last(), hit);
        if n < hit.len() && hit[n] {
            match rest {
                Some(k) => if zs[n] >= zs[k] { Some(n) } else { Some(k) },
                None => Some(n),
            }
        } else {
            rest
        }
    }
}

/// The front-most of the widgets hit at a point: `zs[i]` is widget `i`'s z
/// value and `hit[i]` whether it contains the point.
pub fn topmost(zs: &Vec<i32>, hit: &Vec<bool>) -> (r: Option<usize>)
    requires
        hit@.len() == zs@.len(),
    ensures
        match r {
            Some(k) => topmost_spec(zs@, hit@) == Some(k as int),
            None => topmost_spec(zs@, hit@) is None,
        },
{
    let mut best: Option<usize> = None;
    let mut i: usize = 0;
    while i < zs.len()
        invariant
            hit@.len() == zs@.len(),
            i <= zs@.len(),
            match best {
                Some(k) => k < i && topmost_spec(zs@.take(i as int), hit@) == Some(k as int),
                None => topmost_spec(zs@.take(i as int), hit@) is None,
            },
        decreases zs.len() - i,
    {
        proof {
            let t = zs@.take(i as int + 1);
            assert(t.drop_last() =~= zs@.take(i as int));
            if let Some(k) = best {
                assert(t[k as int] == zs@[k as int]);
            }
        }
        if hit[i] {
            best = match best {
                Some(k) => if zs[i] >= zs[k] { Some(i) } else { Some(k) },
                None => Some(i),
            };
        }
        i += 1;
    }
    proof {
        assert(zs@.take(zs@.len() as int) =~= zs@);
    }
    best
}

/// Widget `a` is drawn before widget `b`: lower z first, and in list order
/// among equal z.
pub open spec fn drawn_before(zs: Seq<i32>, a: int, b: int) -> bool {
    zs[a] < zs[b] || (zs[a] == zs[b] && a < b)
}

/// `order` lists widgets back to front.
pub open spec fn back_to_front(zs: Seq<i32>, order: Seq<usize>) -> bool {
    forall|p: int, q: int| 0 <= p < q < order.len() ==> drawn_before(zs, order[p] as int, order[q] as int)
}

/// The widgets with z values `zs` in back-to-front draw order: every index
/// once, sorted by z, keeping list order among equal z (a stable sort).
pub fn draw_order(zs: &Vec<i32>) -> (order: Vec<usize>)
    ensures
        order@.len() == zs@.len(),
        forall|p: int| 0 <= p < order@.len() ==> (#[trigger] order@[p]) < zs@.len(),
        forall|x: usize| x < zs@.len() ==> #[trigger] order@.contains(x),
        back_to_front(zs@, order@),
{
    let mut order: Vec<usize> = Vec::new();
    let mut i: usize = 0;
    while i < zs.len()
        invariant
            i <= zs@.len(),
            order@.len() == i,
            forall|p: int| 0 <= p < order@.len() ==> (#[trigger] order@[p]) < i,
            forall|x: usize| x < i ==> #[trigger] order@.contains(x),
            back_to_front(zs@, order@),
        decreases zs.len() - i,
    {
        let mut j: usize = 0;
        while j < order.len() && zs[order[j]] <= zs[i]
            invariant
                j <= order@.len(),
                i < zs@.len(),
                forall|p: int| 0 <= p < order@.len() ==> (#[trigger] order@[p]) < i,
                forall|p: int| 0 <= p < j ==> zs@[order@[p] as int] <= zs@[i as int],
            decreases order.len() - j,
        {
            j += 1;
        }
        let ghost old_order = order@;
        order.insert(j, i);
        proof {
            assert forall|p: int| 0 <= p < order@.len() implies (#[trigger] order@[p]) < i + 1 by {
                if p < j {
                    assert(order@[p] == old_order[p]);
                } else if p > j {
                    assert(order@[p] == old_order[p - 1]);
                }
            }
            assert forall|x: usize| x < i + 1 implies #[trigger] order@.contains(x) by {
                if x == i {
                    assert(order@[j as int] == i);
                } else {
                    assert(old_order.contains(x));
                    let p = choose|p: int| 0 <= p < old_order.len() && old_order[p] == x;
                    if p < j {
                        assert(order@[p] == x);
                    } else {
                        assert(order@[p + 1] == x);
                    }
                }
            }
            assert forall|p: int, q: int| 0 <= p < q < order@.len() implies drawn_before(
                zs@,
                order@[p] as int,
                order@[q] as int,
            ) by {
                if j < old_order.len() {
                    assert(zs@[old_order[j as int] as int] > zs@[i as int]);
                }
                if p < j && q < j {
                    assert(order@[p] == old_order[p] && order@[q] == old_order[q]);
                } else if p < j && q == j {
                    assert(order@[p] == old_order[p]);
                } else if p < j {
                    assert(order@[p] == old_order[p] && order@[q] == old_order[q - 1]);
                } else if p == j {
                    assert(order@[q] == old_order[q - 1]);
                    if q - 1 > j {
                        assert(drawn_before(zs@, old_order[j as int] as int, old_order[q - 1] as int));
                    }
                } else {
                    assert(order@[p] == old_order[p - 1] && order@[q] == old_order[q - 1]);
                }
            }
        }
        i += 1;
    }
    order
}

/// The widget `topmost` picks is hit, no hit widget has a higher z, and
/// every hit widget after it in the list has a lower one; it finds none
/// exactly when nothing is hit.
pub proof fn law_topmost_is_in_front(zs: Seq<i32>, hit: Seq<bool>)
    requires
        hit.len() == zs.len(),
    ensures
        topmost_spec(zs, hit) matches Some(k) ==> 0 <= k < zs.len() && hit[k] && (forall|i: int|
            0 <= i < zs.len() && #[trigger] hit[i] ==> zs[i] <= zs[k]) && (forall|i: int|
            k < i < zs.len() && #[trigger] hit[i] ==> zs[i] < zs[k]),
        topmost_spec(zs, hit) is None <==> forall|i: int| 0 <= i < zs.len() ==> !(#[trigger] hit[i]),
    decreases zs.len(),
{
    if zs.len() > 0 {
        let n = zs.len() - 1;
        let init = zs.drop_last();
        law_topmost_is_in_front(init, hit.subrange(0, n));
        lemma_topmost_prefix(init, hit);
        assert forall|i: int| 0 <= i < n implies #[trigger] zs[i] == init[i] && hit.subrange(0, n)[i] == hit[i] by {}
        let sub = hit.subrange(0, n);
        if topmost_spec(zs, hit) is None {
            assert forall|i: int| 0 <= i < zs.len() implies !(#[trigger] hit[i]) by {
                if i < n {
                    assert(sub[i] == hit[i]);
                }
            }
        }
        if forall|i: int| 0 <= i < zs.len() ==> !(#[trigger] hit[i]) {
            assert forall|i: int| 0 <= i < init.len() implies !(#[trigger] sub[i]) by {
                assert(sub[i] == hit[i]);
            }
        }
    }
}

/// `topmost_spec` reads `hit` only at the indices of `zs`.
proof fn lemma_topmost_prefix(zs: Seq<i32>, hit: Seq<bool>)
    requires
        zs.len() <= hit.len(),
    ensures
        topmost_spec(zs, hit) == topmost_spec(zs, hit.subrange(0, zs.len() as int)),
    decreases zs.len(),
{
    if zs.len() > 0 {
        let n = zs.len() - 1;
        lemma_topmost_prefix(zs.drop_last(), hit);
        lemma_topmost_prefix(zs.drop_last(), hit.subrange(0, zs.len() as int));
        assert(hit.subrange(0, zs.len() as int).subrange(0, n) =~= hit.subrange(0, n));
    }
}

} // verus!
