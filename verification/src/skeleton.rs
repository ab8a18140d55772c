//! The COCO-17 keypoint set: names, the limbs of the rig, and which limbs
//! and joints are drawn given which keypoints are visible.
use vstd::prelude::*;

verus! {

/// Number of keypoints of a COCO pose.
pub const NUM_KEYPOINTS: usize = 17;

/// Number of limbs of the COCO skeleton.
pub const NUM_LIMBS: usize = 19;

/// The COCO skeleton: pairs of keypoint indices joined by a limb.
pub open spec fn coco_skeleton() -> Seq<(usize, usize)> {
    seq![
        (15usize, 13usize),
        (13, 11),
        (16, 14),
        (14, 12),
        (11, 12),
        (5, 11),
        (6, 12),
        (5, 6),
        (5, 7),
        (6, 8),
        (7, 9),
        (8, 10),
        (1, 2),
        (0, 1),
        (0, 2),
        (1, 3),
        (2, 4),
        (3, 5),
        (4, 6),
    ]
}

/// Limb `i` of the COCO skeleton.
pub fn skeleton_limb(i: usize) -> (r: (usize, usize))
    requires
        i < NUM_LIMBS,
    ensures
        r == coco_skeleton()[i as int],
        r.0 < NUM_KEYPOINTS && r.1 < NUM_KEYPOINTS,
        (keypoint_name_of(r.0 as int), keypoint_name_of(r.1 as int)) == coco_limb_names(i as int),
        joins_neighbours(r.0 as int, r.1 as int),
{
    proof {
        lemma_skeleton_limb_names(i as int);
        lemma_limbs_join_neighbours(i as int);
    }
    match i {
        0 => (15, 13),
        1 => (13, 11),
        2 => (16, 14),
        3 => (14, 12),
        4 => (11, 12),
        5 => (5, 11),
        6 => (6, 12),
        7 => (5, 6),
        8 => (5, 7),
        9 => (6, 8),
        10 => (7, 9),
        11 => (8, 10),
        12 => (1, 2),
        13 => (0, 1),
        14 => (0, 2),
        15 => (1, 3),
        16 => (2, 4),
        17 => (3, 5),
        _ => (4, 6),
    }
}

/// The body-part name of COCO keypoint `k`.
pub open spec fn keypoint_name_of(k: int) -> Seq<char> {
    if k == 0 {
        "nose"@
    } else if k == 1 {
        "left_eye"@
    } else if k == 2 {
        "right_eye"@
    } else if k == 3 {
        "left_ear"@
    } else if k == 4 {
        "right_ear"@
    } else if k == 5 {
        "left_shoulder"@
    } else if k == 6 {
        "right_shoulder"@
    } else if k == 7 {
        "left_elbow"@
    } else if k == 8 {
        "right_elbow"@
    } else if k == 9 {
        "left_wrist"@
    } else if k == 10 {
        "right_wrist"@
    } else if k == 11 {
        "left_hip"@
    } else if k == 12 {
        "right_hip"@
    } else if k == 13 {
        "left_knee"@
    } else if k == 14 {
        "right_knee"@
    } else if k == 15 {
        "left_ankle"@
    } else {
        "right_ankle"@
    }
}

/// The body parts that come in a left and a right keypoint, in COCO order:
/// keypoint `2k + 1` is the left one and `2k + 2` the right one.
pub open spec fn paired_part(k: int) -> Seq<char> {
    if k == 0 {
        "eye"@
    } else if k == 1 {
        "ear"@
    } else if k == 2 {
        "shoulder"@
    } else if k == 3 {
        "elbow"@
    } else if k == 4 {
        "wrist"@
    } else if k == 5 {
        "hip"@
    } else if k == 6 {
        "knee"@
    } else {
        "ankle"@
    }
}

/// The COCO keypoints are the nose, then for each paired body part its left
/// and then its right keypoint, named `left_<part>` and `right_<part>`.
pub proof fn lemma_keypoint_names_by_side(k: int)
    requires
        0 <= k < 8,
    ensures
        keypoint_name_of(0) == "nose"@,
        keypoint_name_of(2 * k + 1) == "left_"@ + paired_part(k),
        keypoint_name_of(2 * k + 2) == "right_"@ + paired_part(k),
{
    reveal_strlit("left_");
    reveal_strlit("right_");
    reveal_strlit("eye");
    reveal_strlit("ear");
    reveal_strlit("shoulder");
    reveal_strlit("elbow");
    reveal_strlit("wrist");
    reveal_strlit("hip");
    reveal_strlit("knee");
    reveal_strlit("ankle");
    if k == 0 {
        reveal_strlit("left_eye");
        reveal_strlit("right_eye");
        assert("left_eye"@ =~= "left_"@ + "eye"@);
        assert("right_eye"@ =~= "right_"@ + "eye"@);
    } else if k == 1 {
        reveal_strlit("left_ear");
        reveal_strlit("right_ear");
        assert("left_ear"@ =~= "left_"@ + "ear"@);
        assert("right_ear"@ =~= "right_"@ + "ear"@);
    } else if k == 2 {
        reveal_strlit("left_shoulder");
        reveal_strlit("right_shoulder");
        assert("left_shoulder"@ =~= "left_"@ + "shoulder"@);
        assert("right_shoulder"@ =~= "right_"@ + "shoulder"@);
    } else if k == 3 {
        reveal_strlit("left_elbow");
        reveal_strlit("right_elbow");
        assert("left_elbow"@ =~= "left_"@ + "elbow"@);
        assert("right_elbow"@ =~= "right_"@ + "elbow"@);
    } else if k == 4 {
        reveal_strlit("left_wrist");
        reveal_strlit("right_wrist");
        assert("left_wrist"@ =~= "left_"@ + "wrist"@);
        assert("right_wrist"@ =~= "right_"@ + "wrist"@);
    } else if k == 5 {
        reveal_strlit("left_hip");
        reveal_strlit("right_hip");
        assert("left_hip"@ =~= "left_"@ + "hip"@);
        assert("right_hip"@ =~= "right_"@ + "hip"@);
    } else if k == 6 {
        reveal_strlit("left_knee");
        reveal_strlit("right_knee");
        assert("left_knee"@ =~= "left_"@ + "knee"@);
        assert("right_knee"@ =~= "right_"@ + "knee"@);
    } else {
        reveal_strlit("left_ankle");
        reveal_strlit("right_ankle");
        assert("left_ankle"@ =~= "left_"@ + "ankle"@);
        assert("right_ankle"@ =~= "right_"@ + "ankle"@);
    }
}

/// The limbs of the COCO skeleton by the names of the keypoints they join:
/// the legs (ankle–knee, knee–hip on each side), the hips, the torso sides
/// (shoulder–hip), the shoulders, the arms (shoulder–elbow, elbow–wrist), and
/// the face (eyes, nose–eye, eye–ear, ear–shoulder).
pub open spec fn coco_limb_names(i: int) -> (Seq<char>, Seq<char>) {
    if i == 0 {
        ("left_ankle"@, "left_knee"@)
    } else if i == 1 {
        ("left_knee"@, "left_hip"@)
    } else if i == 2 {
        ("right_ankle"@, "right_knee"@)
    } else if i == 3 {
        ("right_knee"@, "right_hip"@)
    } else if i == 4 {
        ("left_hip"@, "right_hip"@)
    } else if i == 5 {
        ("left_shoulder"@, "left_hip"@)
    } else if i == 6 {
        ("right_shoulder"@, "right_hip"@)
    } else if i == 7 {
        ("left_shoulder"@, "right_shoulder"@)
    } else if i == 8 {
        ("left_shoulder"@, "left_elbow"@)
    } else if i == 9 {
        ("right_shoulder"@, "right_elbow"@)
    } else if i == 10 {
        ("left_elbow"@, "left_wrist"@)
    } else if i == 11 {
        ("right_elbow"@, "right_wrist"@)
    } else if i == 12 {
        ("left_eye"@, "right_eye"@)
    } else if i == 13 {
        ("nose"@, "left_eye"@)
    } else if i == 14 {
        ("nose"@, "right_eye"@)
    } else if i == 15 {
        ("left_eye"@, "left_ear"@)
    } else if i == 16 {
        ("right_eye"@, "right_ear"@)
    } else if i == 17 {
        ("left_ear"@, "left_shoulder"@)
    } else {
        ("right_ear"@, "right_shoulder"@)
    }
}

/// Every limb of the skeleton joins the two keypoints that its body-part
/// names say: limb `i` joins the keypoints named `coco_limb_names(i)`.
pub proof fn lemma_skeleton_limb_names(i: int)
    requires
        0 <= i < NUM_LIMBS,
    ensures
        (keypoint_name_of(coco_skeleton()[i].0 as int), keypoint_name_of(coco_skeleton()[i].1 as int))
            == coco_limb_names(i),
{
}

/// The keypoint on the other side of the body from keypoint `k`: the nose
/// is its own mirror, the left keypoint `2j + 1` and the right keypoint
/// `2j + 2` of a part are each other's.
pub open spec fn mirror_keypoint(k: int) -> int {
    if k == 0 {
        0
    } else if k % 2 == 1 {
        k + 1
    } else {
        k - 1
    }
}

/// Whether a limb may join keypoints `a` and `b`: two keypoints on the same
/// side of the body, the left and right keypoints of one part, or the nose
/// and an eye.
pub open spec fn joins_neighbours(a: int, b: int) -> bool {
    &&& a != b
    &&& {
        ||| (a > 0 && b > 0 && a % 2 == b % 2)
        ||| (a > 0 && b == mirror_keypoint(a))
        ||| (a == 0 && (b == 1 || b == 2))
        ||| (b == 0 && (a == 1 || a == 2))
    }
}

/// Whether limbs `l` and `m` join the same two keypoints.
pub open spec fn same_limb(l: (int, int), m: (int, int)) -> bool {
    l == m || (l.0 == m.1 && l.1 == m.0)
}

/// No limb of the skeleton crosses the body: each joins two different
/// keypoints on one side, the two keypoints of a left/right pair, or the
/// nose and an eye.
pub proof fn lemma_limbs_join_neighbours(i: int)
    requires
        0 <= i < NUM_LIMBS,
    ensures
        joins_neighbours(coco_skeleton()[i].0 as int, coco_skeleton()[i].1 as int),
{
}

/// The skeleton is left/right symmetric: the mirror image of every limb is
/// a limb too.
pub proof fn lemma_skeleton_mirror_symmetric(i: int)
    requires
        0 <= i < NUM_LIMBS,
    ensures
        exists|j: int|
            0 <= j < NUM_LIMBS && #[trigger] same_limb(
                (coco_skeleton()[j].0 as int, coco_skeleton()[j].1 as int),
                (
                    mirror_keypoint(coco_skeleton()[i].0 as int),
                    mirror_keypoint(coco_skeleton()[i].1 as int),
                ),
            ),
{
    let j: int = if i == 0 {
        2
    } else if i == 1 {
        3
    } else if i == 2 {
        0
    } else if i == 3 {
        1
    } else if i == 5 {
        6
    } else if i == 6 {
        5
    } else if i == 8 {
        9
    } else if i == 9 {
        8
    } else if i == 10 {
        11
    } else if i == 11 {
        10
    } else if i == 13 {
        14
    } else if i == 14 {
        13
    } else if i == 15 {
        16
    } else if i == 16 {
        15
    } else if i == 17 {
        18
    } else if i == 18 {
        17
    } else {
        i
    };
    assert(same_limb(
        (coco_skeleton()[j].0 as int, coco_skeleton()[j].1 as int),
        (mirror_keypoint(coco_skeleton()[i].0 as int), mirror_keypoint(coco_skeleton()[i].1 as int)),
    ));
}

/// The body-part name of COCO keypoint `k`, for display.
pub fn keypoint_name(k: usize) -> (r: &'static str)
    requires
        k < NUM_KEYPOINTS,
    ensures
        r@ == keypoint_name_of(k as int),
        k == 0 ==> r@ == "nose"@,
        k % 2 == 1 ==> r@ == "left_"@ + paired_part((k as int - 1) / 2),
        k > 0 && k % 2 == 0 ==> r@ == "right_"@ + paired_part(k as int / 2 - 1),
{
    proof {
        if k > 0 {
            let j = if k % 2 == 1 {
                (k as int - 1) / 2
            } else {
                k as int / 2 - 1
            };
            lemma_keypoint_names_by_side(j);
        }
    }
    match k {
        0 => "nose",
        1 => "left_eye",
        2 => "right_eye",
        3 => "left_ear",
        4 => "right_ear",
        5 => "left_shoulder",
        6 => "right_shoulder",
        7 => "left_elbow",
        8 => "right_elbow",
        9 => "left_wrist",
        10 => "right_wrist",
        11 => "left_hip",
        12 => "right_hip",
        13 => "left_knee",
        14 => "right_knee",
        15 => "left_ankle",
        _ => "right_ankle",
    }
}

/// The limbs among `limbs` whose two keypoints are both visible, in order.
pub open spec fn drawn_limbs(limbs: Seq<(usize, usize)>, visible: Seq<bool>) -> Seq<(usize, usize)>
    decreases limbs.len(),
{
    if limbs.len() == 0 {
        Seq::empty()
    } else {
        let rest = drawn_limbs(limbs.drop_last(), visible);
        let l = limbs.last();
        if visible[l.0 as int] && visible[l.1 as int] {
            rest.push(l)
        } else {
            rest
        }
    }
}

/// The keypoints among the first `n` that are visible, in increasing order.
pub open spec fn drawn_joints(n: int, visible: Seq<bool>) -> Seq<usize>
    decreases n,
{
    if n <= 0 {
        Seq::empty()
    } else if visible[n - 1] {
        drawn_joints(n - 1, visible).push((n - 1) as usize)
    } else {
        drawn_joints(n - 1, visible)
    }
}

/// The limbs of the skeleton drawn for a person: those whose two keypoints
/// are visible, in skeleton order.
pub fn visible_limbs(visible: &[bool; 17]) -> (r: Vec<(usize, usize)>)
    ensures
        r@ == drawn_limbs(coco_skeleton(), visible@),
{
    let mut r: Vec<(usize, usize)> = Vec::new();
    let mut i: usize = 0;
    while i < NUM_LIMBS
        invariant
            i <= NUM_LIMBS,
            r@ == drawn_limbs(coco_skeleton().take(i as int), visible@),
        decreases NUM_LIMBS - i,
    {
        let (a, b) = skeleton_limb(i);
        if visible[a] && visible[b] {
            r.push((a, b));
        }
        assert(coco_skeleton().take(i + 1).drop_last() =~= coco_skeleton().take(i as int));
        i = i + 1;
    }
    assert(coco_skeleton().take(NUM_LIMBS as int) =~= coco_skeleton());
    r
}

/// The joints drawn for a person: the indices of its visible keypoints,
/// in increasing order.
pub fn visible_joints(visible: &[bool; 17]) -> (r: Vec<usize>)
    ensures
        r@ == drawn_joints(NUM_KEYPOINTS as int, visible@),
{
    let mut r: Vec<usize> = Vec::new();
    let mut k: usize = 0;
    while k < NUM_KEYPOINTS
        invariant
            k <= NUM_KEYPOINTS,
            r@ == drawn_joints(k as int, visible@),
        decreases NUM_KEYPOINTS - k,
    {
        if visible[k] {
            r.push(k);
        }
        k = k + 1;
    }
    r
}

/// A limb is drawn exactly when it is a limb of the skeleton and both of its
/// keypoints are visible.
pub proof fn lemma_drawn_limb_iff(limbs: Seq<(usize, usize)>, visible: Seq<bool>, l: (usize, usize))
    ensures
        drawn_limbs(limbs, visible).contains(l) <==> (limbs.contains(l) && visible[l.0 as int]
            && visible[l.1 as int]),
    decreases limbs.len(),
{
    if limbs.len() > 0 {
        lemma_drawn_limb_iff(limbs.drop_last(), visible, l);
        let rest = drawn_limbs(limbs.drop_last(), visible);
        let last = limbs.last();
        if limbs.contains(l) && l != last {
            let i = choose|i: int| 0 <= i < limbs.len() && limbs[i] == l;
            assert(limbs.drop_last()[i] == l);
        }
        if limbs.drop_last().contains(l) {
            let i = choose|i: int| 0 <= i < limbs.drop_last().len() && limbs.drop_last()[i] == l;
            assert(limbs[i] == l);
        }
        assert(limbs[limbs.len() - 1] == last);
        if visible[last.0 as int] && visible[last.1 as int] {
            assert(rest.push(last)[rest.len() as int] == last);
            if rest.push(last).contains(l) && l != last {
                let i = choose|i: int| 0 <= i < rest.push(last).len() && rest.push(last)[i] == l;
                assert(rest[i] == l);
            }
            if rest.contains(l) {
                let i = choose|i: int| 0 <= i < rest.len() && rest[i] == l;
                assert(rest.push(last)[i] == l);
            }
        }
    }
}

/// A joint is drawn exactly when its keypoint is visible.
pub proof fn lemma_drawn_joint_iff(n: int, visible: Seq<bool>, k: usize)
    requires
        n <= usize::MAX,
    ensures
        drawn_joints(n, visible).contains(k) <==> (k < n && visible[k as int]),
    decreases n,
{
    if n > 0 {
        lemma_drawn_joint_iff(n - 1, visible, k);
        let rest = drawn_joints(n - 1, visible);
        lemma_drawn_joints_bound(n - 1, visible);
        if visible[n - 1] {
            let p = rest.push((n - 1) as usize);
            assert(p[rest.len() as int] == (n - 1) as usize);
            if p.contains(k) && k != n - 1 {
                let i = choose|i: int| 0 <= i < p.len() && p[i] == k;
                assert(rest[i] == k);
            }
            if rest.contains(k) {
                let i = choose|i: int| 0 <= i < rest.len() && rest[i] == k;
                assert(p[i] == k);
            }
        }
    }
}

proof fn lemma_drawn_joints_bound(n: int, visible: Seq<bool>)
    requires
        n <= usize::MAX,
    ensures
        forall|i: int| 0 <= i < drawn_joints(n, visible).len() ==> #[trigger] drawn_joints(n, visible)[i] < n,
    decreases n,
{
    if n > 0 {
        lemma_drawn_joints_bound(n - 1, visible);
        let rest = drawn_joints(n - 1, visible);
        if visible[n - 1] {
            let p = rest.push((n - 1) as usize);
            assert forall|i: int| 0 <= i < p.len() implies #[trigger] p[i] < n by {
                if i < rest.len() {
                    assert(p[i] == rest[i]);
                }
            }
        }
    }
}

} // verus!
