//! The tuning protocol: two coarse operator inputs become one change of a
//! tunable.
//!
//! The first input, the selector, picks the tunable; the second, the value,
//! is made discrete in the way of that tunable.  The protocol produces a
//! message and nothing else: applying it is the job of the unit that
//! receives it.

use crate::messages::messages::update::{Update, UpdateField};
use crate::messages::messages::Message;
use crate::operations::throttle_map::ThottleMapMode;
use crate::operations::traction_control::TractionControlMode;
use crate::subsystems::mcu::engine::{initial_slip, lemma_initial_slip, ONE_TENTH};
use crate::utils::percentage::{percent_ratio, whole_percent, wire_byte, Percentage};
use crate::utils::single;
use vstd::prelude::*;
use vstd::std_specs::cmp::PartialEqSpecImpl;

verus! {

/// The bit pattern of the single nearest to 0.33: the first threshold.
pub const LOWER_THIRD: u32 = 0x3EA8_F5C3;

/// The bit pattern of the single nearest to 0.66: the second threshold.
pub const UPPER_THIRD: u32 = 0x3F28_F5C3;

/// The bit pattern of one half.
pub const HALF: u32 = 0x3F00_0000;

/// The new value of a tunable.
#[derive(Debug, Copy, Clone)]
pub enum ConfigUpdateOptions {
    /// A target slip.
    DSL(Percentage),
    /// A traction control mode.
    TCM(TractionControlMode),
    /// A throttle curve.
    TMM(ThottleMapMode),
}

impl ConfigUpdateOptions {
    /// The seven bytes of the payload: the value as one byte, then zeros.
    pub open spec fn wire(self) -> Seq<u8> {
        seq![
            match self {
                ConfigUpdateOptions::DSL(per) => wire_byte(per@),
                ConfigUpdateOptions::TCM(tcm) => tcm.tag(),
                ConfigUpdateOptions::TMM(tmm) => tmm.tag(),
            },
            0u8,
            0u8,
            0u8,
            0u8,
            0u8,
            0u8,
        ]
    }

    /// Whether two values are the same: the same kind and equal contents.  A
    /// target slip that is not a number equals nothing.
    pub open spec fn same(self, other: ConfigUpdateOptions) -> bool {
        match (self, other) {
            (ConfigUpdateOptions::DSL(a), ConfigUpdateOptions::DSL(b)) => single::spec_eq(a@, b@),
            (ConfigUpdateOptions::TCM(a), ConfigUpdateOptions::TCM(b)) => a == b,
            (ConfigUpdateOptions::TMM(a), ConfigUpdateOptions::TMM(b)) => a == b,
            _ => false,
        }
    }

    /// Whether the value is a number: always, but for a target slip that is
    /// not one.
    pub open spec fn is_number(self) -> bool {
        self matches ConfigUpdateOptions::DSL(per) ==> !single::spec_is_nan(per@)
    }

    /// The seven bytes of the payload.
    pub fn to_bytes(&self) -> (bytes: [u8; 7])
        ensures
            bytes@ == self.wire(),
    {
        let first: u8 = match self {
            ConfigUpdateOptions::DSL(per) => (*per).into(),
            ConfigUpdateOptions::TCM(tcm) => (*tcm).into(),
            ConfigUpdateOptions::TMM(tmm) => (*tmm).into(),
        };
        let bytes: [u8; 7] = [first, 0, 0, 0, 0, 0, 0];
        assert(bytes@ =~= self.wire());
        bytes
    }
}

impl PartialEq for ConfigUpdateOptions {
    fn eq(&self, other: &Self) -> (equal: bool) {
        match (self, other) {
            (ConfigUpdateOptions::DSL(a), ConfigUpdateOptions::DSL(b)) => single::eq(
                a.to_bits(),
                b.to_bits(),
            ),
            (ConfigUpdateOptions::TCM(a), ConfigUpdateOptions::TCM(b)) => *a == *b,
            (ConfigUpdateOptions::TMM(a), ConfigUpdateOptions::TMM(b)) => *a == *b,
            _ => false,
        }
    }
}

impl PartialEqSpecImpl for ConfigUpdateOptions {
    open spec fn obeys_eq_spec() -> bool {
        true
    }

    open spec fn eq_spec(&self, other: &Self) -> bool {
        self.same(*other)
    }
}

/// Where the tuning cursor stands: the tunable picked and its new value.
#[derive(Debug, Copy, Clone)]
pub struct ConfigUpdateState {
    pub field: UpdateField,
    pub val: ConfigUpdateOptions,
}

impl ConfigUpdateState {
    /// The tunable that a selector picks: up to 0.33 the target slip, up to
    /// 0.66 the traction control mode, above that, and for a selector that
    /// is not a number, the throttle curve.
    pub open spec fn field_of(selector: u32) -> UpdateField {
        if single::spec_le(selector, LOWER_THIRD) {
            UpdateField::DSL()
        } else if single::spec_le(selector, UPPER_THIRD) {
            UpdateField::TCM()
        } else {
            UpdateField::TMM()
        }
    }

    /// The value of the tunable `field` that an input stands for.
    ///
    /// A target slip is the input's whole number of percent, divided by ten
    /// without remainder, taken as percent again.  A traction control mode is
    /// the first level up to one half and the second above.  A throttle curve
    /// is the first level up to 0.33, the second up to 0.66, the third above.
    pub open spec fn value_of(field: UpdateField, input: u32) -> ConfigUpdateOptions {
        match field {
            UpdateField::DSL() => ConfigUpdateOptions::DSL(
                Percentage::spec_from_bits(percent_ratio((whole_percent(input) / 10) as u8)),
            ),
            UpdateField::TCM() => ConfigUpdateOptions::TCM(
                if single::spec_le(input, HALF) {
                    TractionControlMode::Level0()
                } else {
                    TractionControlMode::Level1()
                },
            ),
            UpdateField::TMM() => ConfigUpdateOptions::TMM(
                if single::spec_le(input, LOWER_THIRD) {
                    ThottleMapMode::Level0()
                } else if single::spec_le(input, UPPER_THIRD) {
                    ThottleMapMode::Level1()
                } else {
                    ThottleMapMode::Level2()
                },
            ),
        }
    }

    /// The cursor that the two inputs stand for.
    pub open spec fn of_inputs(selector: u32, input: u32) -> ConfigUpdateState {
        ConfigUpdateState {
            field: ConfigUpdateState::field_of(selector),
            val: ConfigUpdateState::value_of(ConfigUpdateState::field_of(selector), input),
        }
    }

    /// The cursor that a unit starts with: on the target slip, at the slip
    /// that a unit starts with.
    pub open spec fn initial() -> ConfigUpdateState {
        ConfigUpdateState { field: UpdateField::DSL(), val: ConfigUpdateOptions::DSL(initial_slip()) }
    }

    /// Whether two cursors are the same: the same tunable and the same value.
    pub open spec fn same(self, other: ConfigUpdateState) -> bool {
        self.field == other.field && self.val.same(other.val)
    }

    /// The message that broadcasts the cursor: a change of its tunable, with
    /// its value as the payload.
    pub open spec fn message(self) -> Message {
        Message::UpdateMessage(Update::of_parts(self.field, self.val.wire()))
    }

    /// A cursor whose value is a number is the same as itself.
    pub proof fn lemma_same_reflexive(state: ConfigUpdateState)
        requires
            state.val.is_number(),
        ensures
            state.same(state),
    {
    }

    /// The cursor made from two inputs always has a value that is a number,
    /// and a value of the kind of its tunable.
    pub proof fn lemma_of_inputs(selector: u32, input: u32)
        ensures
            ConfigUpdateState::of_inputs(selector, input).val.is_number(),
            ConfigUpdateState::of_inputs(selector, input).field == UpdateField::DSL()
                <==> ConfigUpdateState::of_inputs(selector, input).val is DSL,
            ConfigUpdateState::of_inputs(selector, input).field == UpdateField::TCM()
                <==> ConfigUpdateState::of_inputs(selector, input).val is TCM,
            ConfigUpdateState::of_inputs(selector, input).field == UpdateField::TMM()
                <==> ConfigUpdateState::of_inputs(selector, input).val is TMM,
    {
        let step = (whole_percent(input) / 10) as u8;
        Percentage::lemma_from_bits(percent_ratio(step));
        single::lemma_ratio_is_number(step as nat, 100);
    }

    /// The cursor that the selector `field_per` and the value `val_per` stand
    /// for.
    pub fn new(field_per: Percentage, val_per: Percentage) -> (state: Self)
        ensures
            state == ConfigUpdateState::of_inputs(field_per@, val_per@),
    {
        let field = if field_per.at_most(LOWER_THIRD) {
            UpdateField::DSL()
        } else if field_per.at_most(UPPER_THIRD) {
            UpdateField::TCM()
        } else {
            UpdateField::TMM()
        };
        let data = match field {
            UpdateField::DSL() => ConfigUpdateOptions::DSL(Percentage::from_int(val_per.to_int() / 10)),
            UpdateField::TCM() => ConfigUpdateOptions::TCM(
                if val_per.at_most(HALF) {
                    TractionControlMode::Level0()
                } else {
                    TractionControlMode::Level1()
                },
            ),
            UpdateField::TMM() => ConfigUpdateOptions::TMM(
                if val_per.at_most(LOWER_THIRD) {
                    ThottleMapMode::Level0()
                } else if val_per.at_most(UPPER_THIRD) {
                    ThottleMapMode::Level1()
                } else {
                    ThottleMapMode::Level2()
                },
            ),
        };
        Self { field, val: data }
    }
}

impl Default for ConfigUpdateState {
    fn default() -> (state: Self)
        ensures
            state == ConfigUpdateState::initial(),
    {
        let slip = Percentage::from_bits(ONE_TENTH);
        proof {
            lemma_initial_slip();
            Percentage::lemma_view_injective(slip, initial_slip());
        }
        Self { field: UpdateField::DSL(), val: ConfigUpdateOptions::DSL(slip) }
    }
}

impl PartialEq for ConfigUpdateState {
    fn eq(&self, other: &Self) -> (equal: bool) {
        self.field == other.field && self.val == other.val
    }
}

impl PartialEqSpecImpl for ConfigUpdateState {
    open spec fn obeys_eq_spec() -> bool {
        true
    }

    open spec fn eq_spec(&self, other: &Self) -> bool {
        self.same(*other)
    }
}

/// Turns a cursor into the message that broadcasts it.
#[derive(Debug, Clone, Copy)]
pub struct ConfigUpdater {}

impl ConfigUpdater {
    pub fn new() -> Self {
        Self {  }
    }

    /// The one message that broadcasts `state`.
    pub fn run(&self, state: ConfigUpdateState) -> (msg: Message)
        ensures
            msg == state.message(),
    {
        let payload = state.val.to_bytes();
        let update = Update::new(state.field, payload.as_slice());
        proof {
            assert(payload@.subrange(0, 7) =~= payload@);
            Update::lemma_of_parts(state.field, payload@);
            Update::lemma_same_parts(update, Update::of_parts(state.field, payload@));
        }
        Message::UpdateMessage(update)
    }
}

} // verus!
