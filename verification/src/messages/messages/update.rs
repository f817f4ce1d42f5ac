//! A change of one tunable at run time.

use crate::config::config::Config;
use crate::operations::throttle_map::ThottleMapMode;
use crate::operations::traction_control::TractionControlMode;
use crate::subsystems::mcu::engine::EngineConfig;
use crate::utils::percentage::Percentage;
use vstd::prelude::*;
use vstd::std_specs::convert::FromSpecImpl;

verus! {

/// The tunable that a change is about.
#[derive(Debug, Copy, Clone, PartialEq, Eq, Structural)]
pub enum UpdateField {
    /// The throttle curve.
    TMM(),
    /// The traction control mode.
    TCM(),
    /// The target slip.
    DSL(),
}

impl UpdateField {
    /// The tag that stands for this tunable on the wire.
    pub open spec fn tag(self) -> u8 {
        match self {
            UpdateField::TMM() => 0,
            UpdateField::TCM() => 1,
            UpdateField::DSL() => 2,
        }
    }

    /// The tunable that a wire tag stands for.  Decoding is lenient: a tag
    /// that names no tunable reads as the throttle curve.
    pub open spec fn of_tag(tag: u8) -> UpdateField {
        if tag == 1 {
            UpdateField::TCM()
        } else if tag == 2 {
            UpdateField::DSL()
        } else {
            UpdateField::TMM()
        }
    }

    /// Whether a wire tag names a tunable.
    pub open spec fn names_field(tag: u8) -> bool {
        tag <= 2
    }

    /// The configuration with this tunable set to what the first byte of
    /// `data` stands for.  The rest of `data` is not looked at.
    pub open spec fn applied(self, config: Config, data: Seq<u8>) -> Config
        recommends
            data.len() >= 1,
    {
        match self {
            UpdateField::TMM() => Config {
                mcu: config.mcu,
                engine: EngineConfig {
                    throttle_map_mode: ThottleMapMode::of_tag(data[0]),
                    traction_control_mode: config.engine.traction_control_mode,
                    desired_slip: config.engine.desired_slip,
                },
            },
            UpdateField::TCM() => Config {
                mcu: config.mcu,
                engine: EngineConfig {
                    throttle_map_mode: config.engine.throttle_map_mode,
                    traction_control_mode: TractionControlMode::of_tag(data[0]),
                    desired_slip: config.engine.desired_slip,
                },
            },
            UpdateField::DSL() => Config {
                mcu: config.mcu,
                engine: EngineConfig {
                    throttle_map_mode: config.engine.throttle_map_mode,
                    traction_control_mode: config.engine.traction_control_mode,
                    desired_slip: Percentage::of_wire(data[0]),
                },
            },
        }
    }

    /// Encoding a tunable and decoding the tag gives the tunable back.
    pub proof fn lemma_tag_round_trip(field: UpdateField)
        ensures
            UpdateField::names_field(field.tag()),
            UpdateField::of_tag(field.tag()) == field,
    {
    }

    /// Sets this tunable in `config` to what the first byte of `data` stands
    /// for.
    pub fn update_config(&self, config: &mut Config, data: [u8; 7])
        ensures
            *final(config) == self.applied(*old(config), data@),
    {
        match self {
            UpdateField::TMM() => {
                config.engine.throttle_map_mode = data[0].into();
            },
            UpdateField::TCM() => {
                config.engine.traction_control_mode = data[0].into();
            },
            UpdateField::DSL() => {
                config.engine.desired_slip = data[0].into();
            },
        }
    }
}

impl From<u8> for UpdateField {
    fn from(value: u8) -> (field: UpdateField)
        ensures
            field == UpdateField::of_tag(value),
    {
        match value {
            0 => UpdateField::TMM(),
            1 => UpdateField::TCM(),
            2 => UpdateField::DSL(),
            _ => UpdateField::TMM(),
        }
    }
}

impl FromSpecImpl<u8> for UpdateField {
    open spec fn obeys_from_spec() -> bool {
        true
    }

    open spec fn from_spec(value: u8) -> UpdateField {
        UpdateField::of_tag(value)
    }
}

impl From<UpdateField> for u8 {
    fn from(value: UpdateField) -> (tag: u8)
        ensures
            tag == value.tag(),
    {
        match value {
            UpdateField::TMM() => 0,
            UpdateField::TCM() => 1,
            UpdateField::DSL() => 2,
        }
    }
}

impl FromSpecImpl<UpdateField> for u8 {
    open spec fn obeys_from_spec() -> bool {
        true
    }

    open spec fn from_spec(value: UpdateField) -> u8 {
        value.tag()
    }
}

/// The array of the seven bytes `data`.
pub closed spec fn array_of(data: Seq<u8>) -> [u8; 7] {
    choose|a: [u8; 7]| a@ == data
}

/// There is an array for every seven bytes.
pub proof fn lemma_array_of(data: Seq<u8>)
    requires
        data.len() == 7,
    ensures
        array_of(data)@ == data,
{
    let a: [u8; 7] = [data[0], data[1], data[2], data[3], data[4], data[5], data[6]];
    assert(a@ =~= data);
}

/// A change of one tunable.
///
/// On the wire: the tag of the tunable, then the seven bytes of the payload.
#[derive(Debug, Clone, Copy, PartialEq, Eq)]
pub struct Update {
    pub field: UpdateField,
    pub data: [u8; 7],
}

impl Update {
    /// The eight bytes of the frame.
    pub open spec fn wire(self) -> Seq<u8> {
        seq![self.field.tag()] + self.data@
    }

    /// Whether `update` is the change that a frame stands for.
    pub open spec fn parses(data: Seq<u8>, update: Update) -> bool
        recommends
            data.len() >= 8,
    {
        update.field == UpdateField::of_tag(data[0]) && update.data@ == data.subrange(1, 8)
    }

    /// The change of `field` with the seven bytes `data` as its payload.
    pub closed spec fn of_parts(field: UpdateField, data: Seq<u8>) -> Update
        recommends
            data.len() == 7,
    {
        Update { field, data: array_of(data) }
    }

    /// The configuration after this change.
    pub open spec fn applied(self, config: Config) -> Config {
        self.field.applied(config, self.data@)
    }

    /// A change is what its parts say.
    pub proof fn lemma_of_parts(field: UpdateField, data: Seq<u8>)
        requires
            data.len() == 7,
        ensures
            Update::of_parts(field, data).field == field,
            Update::of_parts(field, data).data@ == data,
    {
        lemma_array_of(data);
    }

    /// Two changes of the same tunable with the same payload are the same
    /// change.
    pub proof fn lemma_same_parts(a: Update, b: Update)
        requires
            a.field == b.field,
            a.data@ == b.data@,
        ensures
            a == b,
    {
        assert(a.data =~= b.data);
    }

    /// Decoding the frame of a change gives the change back.
    pub proof fn lemma_round_trip(update: Update)
        ensures
            update.wire().len() == 8,
            UpdateField::names_field(update.wire()[0]),
            Update::parses(update.wire(), update),
    {
        assert(update.wire().subrange(1, 8) =~= update.data@);
    }

    /// A change applied twice leaves the configuration that it leaves when it
    /// is applied once.
    pub proof fn lemma_apply_idempotent(update: Update, config: Config)
        ensures
            update.applied(update.applied(config)) == update.applied(config),
    {
    }

    /// The eight bytes of the frame.
    pub fn to_bytes(&self) -> (bytes: [u8; 8])
        ensures
            bytes@ == self.wire(),
    {
        let bytes: [u8; 8] = [
            self.field.into(),
            self.data[0],
            self.data[1],
            self.data[2],
            self.data[3],
            self.data[4],
            self.data[5],
            self.data[6],
        ];
        assert(bytes@ =~= self.wire());
        bytes
    }

    /// The change that a frame stands for.
    pub fn from_bytes(data: &[u8]) -> (update: Self)
        requires
            data@.len() >= 8,
        ensures
            Update::parses(data@, update),
    {
        let parsed_data: [u8; 7] = [data[1], data[2], data[3], data[4], data[5], data[6], data[7]];
        assert(parsed_data@ =~= data@.subrange(1, 8));
        Self { field: data[0].into(), data: parsed_data }
    }

    /// The change of `field` whose payload is the first seven bytes of `data`.
    pub fn new(field: UpdateField, data: &[u8]) -> (update: Self)
        requires
            data@.len() >= 7,
        ensures
            update.field == field,
            update.data@ == data@.subrange(0, 7),
    {
        let parsed_data: [u8; 7] = [data[0], data[1], data[2], data[3], data[4], data[5], data[6]];
        assert(parsed_data@ =~= data@.subrange(0, 7));
        Self { field, data: parsed_data }
    }

    /// Applies the change to `config`.
    pub fn update(&self, config: &mut Config)
        ensures
            *final(config) == self.applied(*old(config)),
    {
        self.field.update_config(config, self.data);
    }
}

} // verus!
