//! The displays that a Wayland compositor advertises.

use vstd::prelude::*;
use vstd::string::*;

verus! {

/// A mode of an output.
#[derive(Clone, Copy, Debug)]
pub struct OutputMode {
    /// Whether this is the mode that the output is in.
    pub current: bool,
    /// Width and height, in pixels.
    pub dimensions: (i32, i32),
    /// In millihertz.
    pub refresh_rate: i32,
}

/// What a compositor tells of an output. `N` is the type of its name and `M`
/// that of its modes.
pub struct WaylandOutput<N, M> {
    pub name: Option<N>,
    /// The top left corner in the compositor's space.
    pub location: (i32, i32),
    pub logical_size: Option<(i32, i32)>,
    pub modes: M,
}

/// What a `WaylandOutput` stands for.
pub type WaylandOutputView = WaylandOutput<Seq<char>, Seq<OutputMode>>;

impl View for WaylandOutput<String, Vec<OutputMode>> {
    type V = WaylandOutputView;

    open spec fn view(&self) -> WaylandOutputView {
        WaylandOutput {
            name: match self.name {
                Some(n) => Some(n@),
                None => None,
            },
            location: self.location,
            logical_size: self.logical_size,
            modes: self.modes@,
        }
    }
}

/// A display.
#[derive(Debug, Clone)]
pub struct WaylandDisplayInfo {
    pub name: String,
    pub x: i32,
    pub y: i32,
    pub width: i32,
    pub height: i32,
    pub logical_size: Option<(i32, i32)>,
    pub refresh_rate: i32,
}

/// What a `WaylandDisplayInfo` stands for.
pub struct WaylandDisplayInfoView {
    pub name: Seq<char>,
    pub x: i32,
    pub y: i32,
    pub width: i32,
    pub height: i32,
    pub logical_size: Option<(i32, i32)>,
    pub refresh_rate: i32,
}

impl View for WaylandDisplayInfo {
    type V = WaylandDisplayInfoView;

    open spec fn view(&self) -> WaylandDisplayInfoView {
        WaylandDisplayInfoView {
            name: self.name@,
            x: self.x,
            y: self.y,
            width: self.width,
            height: self.height,
            logical_size: self.logical_size,
            refresh_rate: self.refresh_rate,
        }
    }
}

/// The outputs that `v` holds; one of which the compositor has told nothing is
/// `None`.
pub open spec fn outputs_view(v: Seq<Option<WaylandOutput<String, Vec<OutputMode>>>>) -> Seq<
    Option<WaylandOutputView>,
> {
    v.map_values(
        |o: Option<WaylandOutput<String, Vec<OutputMode>>>|
            match o {
                Some(o) => Some(o@),
                None => None,
            },
    )
}

/// The displays that `v` holds.
pub open spec fn displays_view(v: Seq<WaylandDisplayInfo>) -> Seq<WaylandDisplayInfoView> {
    v.map_values(|d: WaylandDisplayInfo| d@)
}

/// The first of `modes` that is current.
pub open spec fn current_mode_spec(modes: Seq<OutputMode>) -> Option<OutputMode>
    decreases modes.len(),
{
    if modes.len() == 0 {
        None
    } else if modes[0].current {
        Some(modes[0])
    } else {
        current_mode_spec(modes.skip(1))
    }
}

/// The display of an output: none where the compositor has told nothing of it
/// or it is in no mode. An output without a name has the empty one.
pub open spec fn display_of(output: Option<WaylandOutputView>) -> Option<WaylandDisplayInfoView> {
    match output {
        Some(o) => match current_mode_spec(o.modes) {
            Some(mode) => Some(
                WaylandDisplayInfoView {
                    name: match o.name {
                        Some(n) => n,
                        None => Seq::empty(),
                    },
                    x: o.location.0,
                    y: o.location.1,
                    width: mode.dimensions.0,
                    height: mode.dimensions.1,
                    logical_size: o.logical_size,
                    refresh_rate: mode.refresh_rate,
                },
            ),
            None => None,
        },
        None => None,
    }
}

/// The displays of the outputs, in the outputs' order.
pub open spec fn displays_of(outputs: Seq<Option<WaylandOutputView>>) -> Seq<
    WaylandDisplayInfoView,
>
    decreases outputs.len(),
{
    if outputs.len() == 0 {
        Seq::empty()
    } else {
        let before = displays_of(outputs.drop_last());
        match display_of(outputs.last()) {
            Some(d) => before.push(d),
            None => before,
        }
    }
}

fn current_mode(modes: &Vec<OutputMode>) -> (r: Option<OutputMode>)
    ensures
        r == current_mode_spec(modes@),
{
    assert(modes@.skip(0) == modes@);
    for i in 0..modes.len()
        invariant
            current_mode_spec(modes@.skip(i as int)) == current_mode_spec(modes@),
    {
        if modes[i].current {
            return Some(modes[i]);
        }
        assert(modes@.skip(i as int).skip(1) == modes@.skip(i + 1));
    }
    None
}

/// The displays of the outputs that a compositor advertises.
pub fn get_wayland_displays(
    outputs: &Vec<Option<WaylandOutput<String, Vec<OutputMode>>>>,
) -> (r: Vec<WaylandDisplayInfo>)
    ensures
        displays_view(r@) == displays_of(outputs_view(outputs@)),
{
    let ghost all = outputs_view(outputs@);
    let mut out: Vec<WaylandDisplayInfo> = Vec::new();
    assert(displays_view(out@) == displays_of(all.take(0)));
    for i in 0..outputs.len()
        invariant
            all == outputs_view(outputs@),
            displays_view(out@) == displays_of(all.take(i as int)),
    {
        assert(all.take(i + 1).drop_last() == all.take(i as int));
        assert(all.take(i + 1).last() == all[i as int]);
        let ghost before = displays_view(out@);
        if let Some(o) = &outputs[i] {
            if let Some(mode) = current_mode(&o.modes) {
                let name = match &o.name {
                    Some(n) => n.as_str().to_owned(),
                    None => String::new(),
                };
                let d = WaylandDisplayInfo {
                    name,
                    x: o.location.0,
                    y: o.location.1,
                    width: mode.dimensions.0,
                    height: mode.dimensions.1,
                    logical_size: o.logical_size,
                    refresh_rate: mode.refresh_rate,
                };
                out.push(d);
                assert(displays_view(out@) == before.push(d@));
            }
        }
    }
    assert(all.take(outputs@.len() as int) == all);
    out
}

/// Every display is that of an output, and every output that is in a mode has
/// its display.
pub proof fn displays_are_those_of_outputs(outputs: Seq<Option<WaylandOutputView>>)
    ensures
        forall|d: WaylandDisplayInfoView|
            #[trigger] displays_of(outputs).contains(d) <==> exists|i: int|
                0 <= i < outputs.len() && display_of(#[trigger] outputs[i]) == Some(d),
        displays_of(outputs).len() <= outputs.len(),
    decreases outputs.len(),
{
    if outputs.len() > 0 {
        let front = outputs.drop_last();
        let before = displays_of(front);
        displays_are_those_of_outputs(front);
        assert forall|d: WaylandDisplayInfoView|
            #[trigger] displays_of(outputs).contains(d) <==> exists|i: int|
                0 <= i < outputs.len() && display_of(#[trigger] outputs[i]) == Some(d) by {
            if displays_of(outputs).contains(d) {
                if before.contains(d) {
                    let i = choose|i: int|
                        0 <= i < front.len() && display_of(#[trigger] front[i]) == Some(d);
                    assert(outputs[i] == front[i]);
                } else {
                    let k = choose|k: int|
                        0 <= k < displays_of(outputs).len() && displays_of(outputs)[k] == d;
                    assert(k < before.len() ==> before[k] == d);
                    assert(display_of(outputs[outputs.len() - 1]) == Some(d));
                }
            }
            if exists|i: int|
                0 <= i < outputs.len() && display_of(#[trigger] outputs[i]) == Some(d) {
                let i = choose|i: int|
                    0 <= i < outputs.len() && display_of(#[trigger] outputs[i]) == Some(d);
                if i < front.len() {
                    assert(front[i] == outputs[i]);
                    assert(before.contains(d));
                    let k = choose|k: int| 0 <= k < before.len() && before[k] == d;
                    assert(displays_of(outputs)[k] == d);
                } else {
                    assert(displays_of(outputs).last() == d);
                }
            }
        }
    }
}

proof fn current_mode_is_first(modes: Seq<OutputMode>)
    ensures
        match current_mode_spec(modes) {
            Some(mode) => exists|m: int|
                {
                    &&& 0 <= m < modes.len()
                    &&& #[trigger] modes[m] == mode
                    &&& mode.current
                    &&& forall|j: int| 0 <= j < m ==> !(#[trigger] modes[j]).current
                },
            None => forall|j: int| 0 <= j < modes.len() ==> !(#[trigger] modes[j]).current,
        },
    decreases modes.len(),
{
    if modes.len() > 0 && !modes[0].current {
        let rest = modes.skip(1);
        current_mode_is_first(rest);
        assert forall|j: int| 0 < j < modes.len() implies modes[j] == rest[j - 1] by {}
        if let Some(mode) = current_mode_spec(rest) {
            let m = choose|m: int|
                {
                    &&& 0 <= m < rest.len()
                    &&& #[trigger] rest[m] == mode
                    &&& mode.current
                    &&& forall|j: int| 0 <= j < m ==> !(#[trigger] rest[j]).current
                };
            assert(modes[m + 1] == mode);
        }
    } else if modes.len() > 0 {
        assert(modes[0] == current_mode_spec(modes)->0);
    }
}

/// The displays are those of the outputs that are in a mode, in the outputs'
/// order: the display at the position `k` is that of the output at the
/// position `at[k]`. It stands where its output does and has that output's
/// logical size and name, and the size and rate of the output's first current
/// mode.
pub proof fn displays_show_their_outputs(outputs: Seq<Option<WaylandOutputView>>) -> (at: Seq<int>)
    ensures
        at.len() == displays_of(outputs).len(),
        forall|k: int, l: int| 0 <= k < l < at.len() ==> #[trigger] at[k] < #[trigger] at[l],
        forall|k: int|
            0 <= k < at.len() ==> {
                let d = displays_of(outputs)[k];
                let i = #[trigger] at[k];
                &&& 0 <= i < outputs.len()
                &&& outputs[i] matches Some(o)
                &&& exists|m: int| 0 <= m < o.modes.len() && (#[trigger] o.modes[m]).current
                &&& d.x == o.location.0
                &&& d.y == o.location.1
                &&& d.logical_size == o.logical_size
                &&& o.name matches Some(n) ==> d.name == n
                &&& o.name is None ==> d.name.len() == 0
                &&& forall|m: int|
                    0 <= m < o.modes.len() && (#[trigger] o.modes[m]).current && (forall|j: int|
                        0 <= j < m ==> !(#[trigger] o.modes[j]).current) ==> d.width
                        == o.modes[m].dimensions.0 && d.height == o.modes[m].dimensions.1
                        && d.refresh_rate == o.modes[m].refresh_rate
            },
        forall|i: int|
            0 <= i < outputs.len() ==> (at.contains(i) <==> {
                &&& #[trigger] outputs[i] matches Some(o)
                &&& exists|m: int| 0 <= m < o.modes.len() && (#[trigger] o.modes[m]).current
            }),
    decreases outputs.len(),
{
    if outputs.len() == 0 {
        Seq::empty()
    } else {
        let front = outputs.drop_last();
        let n = outputs.len() - 1;
        let before = displays_show_their_outputs(front);
        if let Some(o) = outputs[n] {
            current_mode_is_first(o.modes);
        }
        assert forall|i: int| 0 <= i < n implies front[i] == #[trigger] outputs[i] by {}
        assert(!before.contains(n));
        match display_of(outputs[n]) {
            Some(d) => {
                let at = before.push(n);
                assert(at[before.len() as int] == n);
                assert forall|i: int| at.contains(i) <==> before.contains(i) || i == n by {
                    if before.contains(i) {
                        let k = choose|k: int| 0 <= k < before.len() && before[k] == i;
                        assert(at[k] == i);
                    }
                    if at.contains(i) && i != n {
                        let k = choose|k: int| 0 <= k < at.len() && at[k] == i;
                        assert(before[k] == i);
                    }
                }
                assert forall|k: int| 0 <= k < before.len() implies at[k] == before[k]
                    && displays_of(outputs)[k] == displays_of(front)[k] by {}
                at
            },
            None => before,
        }
    }
}

/// Outputs and displays are taken as they are, field by field.
pub proof fn fields_are_taken_as_they_are(
    o: WaylandOutput<String, Vec<OutputMode>>,
    d: WaylandDisplayInfo,
    outputs: Seq<Option<WaylandOutput<String, Vec<OutputMode>>>>,
    displays: Seq<WaylandDisplayInfo>,
)
    ensures
        o@.location == o.location,
        o@.logical_size == o.logical_size,
        o@.modes == o.modes@,
        o.name matches Some(n) ==> o@.name == Some(n@),
        o.name is None ==> o@.name is None,
        d@.name == d.name@,
        d@.x == d.x,
        d@.y == d.y,
        d@.width == d.width,
        d@.height == d.height,
        d@.logical_size == d.logical_size,
        d@.refresh_rate == d.refresh_rate,
        outputs_view(outputs).len() == outputs.len(),
        forall|i: int|
            0 <= i < outputs.len() ==> match outputs[i] {
                Some(p) => #[trigger] outputs_view(outputs)[i] == Some(p@),
                None => outputs_view(outputs)[i] is None,
            },
        displays_view(displays).len() == displays.len(),
        forall|i: int|
            0 <= i < displays.len() ==> #[trigger] displays_view(displays)[i] == displays[i]@,
{
}

} // verus!
