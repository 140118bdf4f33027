use vstd::prelude::*;

use crate::devices::devices::DeviceStatus;
use crate::script_handler::scheduler::{reset_outcome, Schedules};
use crate::text::concat3;

verus! {

/// Whether a builder takes single layouts or groups of layouts; it cannot take both.
#[derive(Debug, Clone, Copy, PartialEq, Eq, Structural)]
pub enum BuilderType {
    Layout,
    LayoutGroup,
}

/// Why a screen builder refused a call.
#[derive(Debug, Clone, PartialEq, Eq)]
pub enum BuilderError {
    /// `with_layout` after a group was given.
    LayoutAfterGroup,
    /// `with_layout_group` after a single layout was given.
    GroupAfterLayout,
    /// `with_layout_group_toggle` after a single layout was given.
    ToggleAfterLayout,
    /// A builder was asked for a device that is loaded already.
    DeviceAlreadyLoaded(String),
    /// A builder was asked for a device that is not configured.
    DeviceNotFound(String),
}

impl BuilderError {
    /// The message the error is reported with.
    pub fn message(&self) -> (r: String)
        ensures
            r@ == match self {
                BuilderError::LayoutAfterGroup =>
                    "Can't use 'with_layout' after calling 'with_layout_group' or 'with_layout_group_toggle'."@,
                BuilderError::GroupAfterLayout =>
                    "Can't use 'with_layout_group' after calling 'with_layout'."@,
                BuilderError::ToggleAfterLayout =>
                    "Can't use 'with_layout_group_toggle' after calling 'with_layout'."@,
                BuilderError::DeviceAlreadyLoaded(n) => "Device '"@ + n@ + "' already loaded."@,
                BuilderError::DeviceNotFound(n) => "Device '"@ + n@ + "' not found."@,
            },
    {
        match self {
            BuilderError::LayoutAfterGroup => String::from_str(
                "Can't use 'with_layout' after calling 'with_layout_group' or 'with_layout_group_toggle'.",
            ),
            BuilderError::GroupAfterLayout => String::from_str(
                "Can't use 'with_layout_group' after calling 'with_layout'.",
            ),
            BuilderError::ToggleAfterLayout => String::from_str(
                "Can't use 'with_layout_group_toggle' after calling 'with_layout'.",
            ),
            BuilderError::DeviceAlreadyLoaded(n) => concat3("Device '", n.as_str(), "' already loaded."),
            BuilderError::DeviceNotFound(n) => concat3("Device '", n.as_str(), "' not found."),
        }
    }
}

/// A layout of a device, with the screen it belongs to when it came in a group: such a
/// layout is only considered while its screen is the selected one.
pub struct GatedLayout<L> {
    pub layout: L,
    pub screen: Option<usize>,
}

/// Collects the layouts of one device from a script.
pub struct ScreenBuilderImpl<L> {
    layouts: Vec<GatedLayout<L>>,
    shortcut: Vec<String>,
    device_name: String,
    builder_type: Option<BuilderType>,
    screen_count: usize,
}

/// What a builder hands over when it is registered.
pub struct ScreenRegistration<L> {
    pub device_name: String,
    pub layouts: Vec<GatedLayout<L>>,
    /// The keys that switch to the next screen and the number of screens, when a toggle
    /// shortcut was given.
    pub toggle: Option<(Vec<String>, usize)>,
}

/// The screen that follows `current` when `count` screens take turns.
pub open spec fn spec_next_screen(current: int, count: int) -> int {
    if current + 1 >= count {
        0
    } else {
        current + 1
    }
}

/// The screen selected after `k` presses of the toggle, starting at `current`.
pub open spec fn toggled(current: int, count: int, k: nat) -> int
    decreases k,
{
    if k == 0 {
        current
    } else {
        spec_next_screen(toggled(current, count, (k - 1) as nat), count)
    }
}

/// The screen that follows `current` when `count` screens take turns: the next one,
/// and the first after the last.
pub fn next_screen(current: usize, count: usize) -> (r: usize)
    ensures
        r == spec_next_screen(current as int, count as int),
{
    if count == 0 || current >= count - 1 {
        0
    } else {
        current + 1
    }
}

/// One press of the screen toggle of the device `name`, whose layouts form `count`
/// screens: the next screen is selected (the first after the last) and the device's
/// schedule starts afresh, so that the newly selected layouts are drawn at once. Gives
/// the position of the device's schedule, or `None` when no device has that name.
pub fn press_toggle(current: &mut usize, count: usize, schedules: &mut Schedules, name: &str) -> (r:
    Option<usize>)
    requires
        old(schedules).wf(),
    ensures
        *final(current) == spec_next_screen(*old(current) as int, count as int),
        final(schedules).wf(),
        reset_outcome(old(schedules).items(), final(schedules).items(), name@, r),
{
    *current = next_screen(*current, count);
    schedules.reset(name)
}

/// Whether a layout gated on `screen` is considered while `current` is selected.
pub fn gate_open(screen: Option<usize>, current: usize) -> (r: bool)
    ensures
        r == match screen {
            None => true,
            Some(s) => s == current,
        },
{
    match screen {
        None => true,
        Some(s) => s == current,
    }
}

/// Starts a builder for the device `name`, if that device can still be loaded.
pub fn open_screen_builder<L>(status: Option<DeviceStatus>, name: String) -> (r: Result<
    ScreenBuilderImpl<L>,
    BuilderError,
>)
    ensures
        match status {
            Some(DeviceStatus::Available) => r matches Ok(b) && b.wf() && b.device_name()
                == name@ && b.layout_count() == 0 && b.builder_type() is None
                && b.screen_count() == 0 && b.shortcut().len() == 0,
            Some(DeviceStatus::Loaded) => r matches Err(BuilderError::DeviceAlreadyLoaded(n))
                && n@ == name@,
            None => r matches Err(BuilderError::DeviceNotFound(n)) && n@ == name@,
        },
{
    match status {
        Some(DeviceStatus::Available) => Ok(ScreenBuilderImpl::new(name)),
        Some(DeviceStatus::Loaded) => Err(BuilderError::DeviceAlreadyLoaded(name)),
        None => Err(BuilderError::DeviceNotFound(name)),
    }
}

impl<L> ScreenBuilderImpl<L> {
    pub closed spec fn device_name(&self) -> Seq<char> {
        self.device_name@
    }

    pub closed spec fn builder_type(&self) -> Option<BuilderType> {
        self.builder_type
    }

    pub closed spec fn screen_count(&self) -> nat {
        self.screen_count as nat
    }

    pub closed spec fn shortcut(&self) -> Seq<Seq<char>> {
        self.shortcut@.map_values(|k: String| k@)
    }

    pub closed spec fn layout_count(&self) -> nat {
        self.layouts@.len()
    }

    /// The layout handle at position `i`, in the order given.
    pub closed spec fn layout_at(&self, i: int) -> L {
        self.layouts@[i].layout
    }

    /// The screen the layout at position `i` is gated on.
    pub closed spec fn gate_at(&self, i: int) -> Option<usize> {
        self.layouts@[i].screen
    }

    /// A builder of single layouts holds no gated layout, no screens and no toggle; a
    /// builder of groups gates each layout on one of its screens.
    pub closed spec fn wf(&self) -> bool {
        match self.builder_type {
            None => self.layouts@.len() == 0 && self.screen_count == 0 && self.shortcut@.len()
                == 0,
            Some(BuilderType::Layout) => self.screen_count == 0 && self.shortcut@.len() == 0
                && forall|i: int| 0 <= i < self.layouts@.len() ==> (#[trigger] self.layouts@[i]).screen is None,
            Some(BuilderType::LayoutGroup) => forall|i: int|
                0 <= i < self.layouts@.len() ==> ((#[trigger] self.layouts@[i]).screen matches Some(
                    s,
                ) && s < self.screen_count),
        }
    }

    /// An empty builder for the device `name`.
    pub fn new(name: String) -> (r: Self)
        ensures
            r.wf(),
            r.device_name() == name@,
            r.layout_count() == 0,
            r.builder_type() is None,
            r.screen_count() == 0,
            r.shortcut().len() == 0,
    {
        ScreenBuilderImpl {
            layouts: Vec::new(),
            shortcut: Vec::new(),
            device_name: name,
            builder_type: None,
            screen_count: 0,
        }
    }

    /// Adds one layout that is always considered. Refused once a group was given.
    pub fn with_layout(&mut self, layout: L) -> (r: Result<(), BuilderError>)
        requires
            old(self).wf(),
        ensures
            final(self).wf(),
            final(self).device_name() == old(self).device_name(),
            old(self).builder_type() == Some(BuilderType::LayoutGroup) ==> r == Err::<
                (),
                BuilderError,
            >(BuilderError::LayoutAfterGroup) && *final(self) == *old(self),
            old(self).builder_type() != Some(BuilderType::LayoutGroup) ==> r is Ok
                && final(self).builder_type() == Some(BuilderType::Layout)
                && final(self).screen_count() == old(self).screen_count()
                && final(self).shortcut() == old(self).shortcut()
                && final(self).layout_count() == old(self).layout_count() + 1
                && final(self).layout_at(old(self).layout_count() as int) == layout
                && final(self).gate_at(old(self).layout_count() as int) is None
                && forall|i: int|
                0 <= i < old(self).layout_count() ==> #[trigger] final(self).layout_at(i) == old(
                    self,
                ).layout_at(i) && final(self).gate_at(i) == old(self).gate_at(i),
    {
        if let Some(BuilderType::LayoutGroup) = self.builder_type {
            return Err(BuilderError::LayoutAfterGroup);
        }
        self.builder_type = Some(BuilderType::Layout);
        self.layouts.push(GatedLayout { layout, screen: None });
        Ok(())
    }

    /// Adds a group of layouts as a new screen: each is only considered while that
    /// screen is selected. Refused once a single layout was given.
    pub fn with_layout_group(&mut self, layouts: Vec<L>) -> (r: Result<(), BuilderError>)
        requires
            old(self).wf(),
            old(self).screen_count() < usize::MAX,
        ensures
            final(self).wf(),
            final(self).device_name() == old(self).device_name(),
            old(self).builder_type() == Some(BuilderType::Layout) ==> r == Err::<
                (),
                BuilderError,
            >(BuilderError::GroupAfterLayout) && *final(self) == *old(self),
            old(self).builder_type() != Some(BuilderType::Layout) ==> r is Ok
                && final(self).builder_type() == Some(BuilderType::LayoutGroup)
                && final(self).screen_count() == old(self).screen_count() + 1
                && final(self).shortcut() == old(self).shortcut()
                && final(self).layout_count() == old(self).layout_count() + layouts@.len()
                && (forall|i: int|
                0 <= i < old(self).layout_count() ==> #[trigger] final(self).layout_at(i) == old(
                    self,
                ).layout_at(i) && final(self).gate_at(i) == old(self).gate_at(i)) && (forall|
                j: int,
            |
                old(self).layout_count() <= j < final(self).layout_count()
                    ==> #[trigger] final(self).layout_at(j) == layouts@[j - old(self).layout_count()]
                    && final(self).gate_at(j) == Some(old(self).screen_count() as usize)),
    {
        if let Some(BuilderType::Layout) = self.builder_type {
            return Err(BuilderError::GroupAfterLayout);
        }
        let ghost start = self.layouts@.len();
        let ghost given = layouts@;
        let screen = self.screen_count;
        self.builder_type = Some(BuilderType::LayoutGroup);
        self.screen_count = self.screen_count + 1;
        let mut rest = layouts;
        let ghost mut k: int = 0;
        while rest.len() > 0
            invariant
                0 <= k <= given.len(),
                k + rest@.len() == given.len(),
                forall|i: int| 0 <= i < rest@.len() ==> #[trigger] rest@[i] == given[k + i],
                self.layouts@.len() == start + k,
                self.builder_type == Some(BuilderType::LayoutGroup),
                self.screen_count == screen + 1,
                self.device_name == old(self).device_name,
                self.shortcut == old(self).shortcut,
                start == old(self).layouts@.len(),
                forall|i: int|
                    0 <= i < start ==> #[trigger] self.layouts@[i] == old(self).layouts@[i],
                forall|j: int|
                    start <= j < start + k ==> (#[trigger] self.layouts@[j]).layout == given[j
                        - start] && self.layouts@[j].screen == Some(screen),
            decreases rest@.len(),
        {
            let layout = rest.remove(0);
            self.layouts.push(GatedLayout { layout, screen: Some(screen) });
            proof {
                k = k + 1;
            }
        }
        assert forall|i: int| 0 <= i < self.layouts@.len() implies ((
            #[trigger] self.layouts@[i]).screen matches Some(s) && s < self.screen_count) by {
            if i >= start {
                assert(self.layouts@[i].screen == Some(screen));
            }
        }
        Ok(())
    }

    /// Sets the keys that switch between the groups. Refused once a single layout was
    /// given.
    pub fn with_layout_group_toggle(&mut self, keys: Vec<String>) -> (r: Result<(), BuilderError>)
        requires
            old(self).wf(),
        ensures
            final(self).wf(),
            final(self).device_name() == old(self).device_name(),
            old(self).builder_type() == Some(BuilderType::Layout) ==> r == Err::<
                (),
                BuilderError,
            >(BuilderError::ToggleAfterLayout) && *final(self) == *old(self),
            old(self).builder_type() != Some(BuilderType::Layout) ==> r is Ok
                && final(self).builder_type() == Some(BuilderType::LayoutGroup)
                && final(self).screen_count() == old(self).screen_count()
                && final(self).shortcut() == keys@.map_values(|k: String| k@)
                && final(self).layout_count() == old(self).layout_count() && forall|i: int|
                0 <= i < old(self).layout_count() ==> #[trigger] final(self).layout_at(i) == old(
                    self,
                ).layout_at(i) && final(self).gate_at(i) == old(self).gate_at(i),
    {
        if let Some(BuilderType::Layout) = self.builder_type {
            return Err(BuilderError::ToggleAfterLayout);
        }
        self.builder_type = Some(BuilderType::LayoutGroup);
        self.shortcut = keys;
        Ok(())
    }

    /// Hands over what the device is registered with: its layouts in the order given,
    /// and the toggle when keys for it were given.
    pub fn register(self) -> (r: ScreenRegistration<L>)
        requires
            self.wf(),
        ensures
            r.device_name@ == self.device_name(),
            r.layouts@.len() == self.layout_count(),
            forall|i: int|
                0 <= i < self.layout_count() ==> (#[trigger] r.layouts@[i]).layout
                    == self.layout_at(i) && r.layouts@[i].screen == self.gate_at(i),
            match r.toggle {
                Some((keys, count)) => self.shortcut().len() > 0 && keys@.map_values(
                    |k: String| k@,
                ) == self.shortcut() && count == self.screen_count(),
                None => self.shortcut().len() == 0,
            },
    {
        let toggle = if self.shortcut.len() > 0 {
            Some((self.shortcut, self.screen_count))
        } else {
            None
        };
        ScreenRegistration { device_name: self.device_name, layouts: self.layouts, toggle }
    }
}

/// What a well-formed builder holds: nothing before the first call; with single layouts,
/// no screens, no toggle keys and no gated layout; with groups, each layout gated on one of
/// its screens.
pub proof fn lemma_builder_kinds<L>(b: ScreenBuilderImpl<L>)
    requires
        b.wf(),
    ensures
        b.builder_type() is None ==> b.layout_count() == 0 && b.screen_count() == 0
            && b.shortcut().len() == 0,
        b.builder_type() == Some(BuilderType::Layout) ==> b.screen_count() == 0
            && b.shortcut().len() == 0 && forall|i: int|
            0 <= i < b.layout_count() ==> #[trigger] b.gate_at(i) is None,
        b.builder_type() == Some(BuilderType::LayoutGroup) ==> forall|i: int|
            0 <= i < b.layout_count() ==> (#[trigger] b.gate_at(i) matches Some(s) && s
                < b.screen_count()),
{
}

/// One press of the toggle moves to the screen after the current one, wrapping round.
pub proof fn lemma_toggle_step(current: int, count: int)
    requires
        0 <= current < count,
    ensures
        spec_next_screen(current, count) == (current + 1) % count,
        0 <= spec_next_screen(current, count) < count,
{
    if current + 1 >= count {
        assert(current + 1 == count);
        vstd::arithmetic::div_mod::lemma_mod_self_0(count);
    } else {
        vstd::arithmetic::div_mod::lemma_small_mod((current + 1) as nat, count as nat);
    }
}

/// After `k` presses the toggle has moved `k` screens on, wrapping round; after as many
/// presses as there are screens it is back at the screen it started from.
pub proof fn lemma_toggle_cycles(current: int, count: int, k: nat)
    requires
        0 <= current < count,
    ensures
        toggled(current, count, k) == (current + k) % count,
        toggled(current, count, count as nat) == current,
{
    lemma_toggle_count(current, count, k);
    lemma_toggle_count(current, count, count as nat);
    vstd::arithmetic::div_mod::lemma_mod_add_multiples_vanish(current, count);
    vstd::arithmetic::div_mod::lemma_small_mod(current as nat, count as nat);
}

proof fn lemma_toggle_count(current: int, count: int, k: nat)
    requires
        0 <= current < count,
    ensures
        toggled(current, count, k) == (current + k) % count,
    decreases k,
{
    if k == 0 {
        vstd::arithmetic::div_mod::lemma_small_mod(current as nat, count as nat);
    } else {
        lemma_toggle_count(current, count, (k - 1) as nat);
        let prev = toggled(current, count, (k - 1) as nat);
        vstd::arithmetic::div_mod::lemma_mod_bound(current + k - 1, count);
        vstd::arithmetic::div_mod::lemma_mod_bound(current + k, count);
        lemma_toggle_step(prev, count);
        vstd::arithmetic::div_mod::lemma_add_mod_noop(current + k - 1, 1, count);
        if count > 1 {
            vstd::arithmetic::div_mod::lemma_small_mod(1, count as nat);
        }
    }
}

} // verus!
