//! Instance records that script constructors fill, and their classes.

use vstd::prelude::*;

verus! {

/// The class of a script instance, which picks the record type and its pool.
#[derive(Clone, Copy, Debug, PartialEq, Eq, Structural, Hash)]
pub enum InstanceClass {
    Npc,
    Mission,
    Info,
    Item,
    ItemReact,
    Focus,
    Menu,
    MenuItem,
    Sfx,
    Pfx,
    MusicTheme,
}

/// Which game a script file belongs to.
#[derive(Clone, Copy, Debug, PartialEq, Eq, Structural)]
pub enum GameType {
    Gothic1,
    Gothic2,
}

/// How one music theme leads into the next.
#[derive(Clone, Copy, Debug, PartialEq, Eq, Structural)]
pub enum TransitionType {
    Nil,
    Groove,
    Fill,
    Break,
    Intro,
    End,
    EndAndIntro,
}

/// When a music transition takes place.
#[derive(Clone, Copy, Debug, PartialEq, Eq, Structural)]
pub enum SubTransitionType {
    Immediate,
    Beat,
    Measure,
}

/// Item categories, one bit each.
#[derive(Clone, Copy, Debug, PartialEq, Eq, Structural)]
pub enum Categories {
    Nil,
    Nf,
    Ff,
    Mun,
    Armor,
    Food,
    Docs,
    Potion,
    Light,
    Rune,
    Magic,
}

impl Categories {
    /// The bit of this flag.
    pub fn bit(self) -> (r: u32)
        ensures
            r != 0,
    {
        match self {
            Categories::Nil => 1,
            Categories::Nf => 2,
            Categories::Ff => 4,
            Categories::Mun => 8,
            Categories::Armor => 16,
            Categories::Food => 32,
            Categories::Docs => 64,
            Categories::Potion => 128,
            Categories::Light => 256,
            Categories::Rune => 512,
            Categories::Magic => 0x8000_0000,
        }
    }
}

/// Item flags, one bit each.
#[derive(Clone, Copy, Debug, PartialEq, Eq, Structural)]
pub enum Flags {
    Dagger,
    Sword,
    Axe,
    TwoHandSword,
    TwoHandAxe,
    Bow,
    CrossBow,
    Amulet,
    Ring,
    Belt,
    Mission,
}

impl Flags {
    /// The bit of this flag.
    pub fn bit(self) -> (r: u32)
        ensures
            r != 0,
    {
        match self {
            Flags::Dagger => 0x2000,
            Flags::Sword => 0x4000,
            Flags::Axe => 0x8000,
            Flags::TwoHandSword => 0x1_0000,
            Flags::TwoHandAxe => 0x2_0000,
            Flags::Bow => 0x8_0000,
            Flags::CrossBow => 0x10_0000,
            Flags::Amulet => 0x40_0000,
            Flags::Ring => 0x800,
            Flags::Belt => 0x100_0000,
            Flags::Mission => 0x1000,
        }
    }
}

/// NPC flags, one bit each.
#[derive(Clone, Copy, Debug, PartialEq, Eq, Structural)]
pub enum Flag {
    Friends,
    Immortal,
    Incorporeal,
    Protected,
}

impl Flag {
    /// The bit of this flag.
    pub fn bit(self) -> (r: u32)
        ensures
            r != 0,
    {
        match self {
            Flag::Friends => 1,
            Flag::Immortal => 2,
            Flag::Incorporeal => 4,
            Flag::Protected => 0x400,
        }
    }
}

/// Menu events.
#[derive(Clone, Copy, Debug, PartialEq, Eq, Structural)]
pub enum Event {
    Execute,
    Changed,
    Leave,
    Timer,
    Close,
    Init,
    Prev,
    Next,
}

/// Menu actions.
#[derive(Clone, Copy, Debug, PartialEq, Eq, Structural)]
pub enum Action {
    Undef,
    Back,
    StartMenu,
    StartItem,
    Close,
    ConCommands,
    PlaySound,
    ExecCommands,
}

/// Menu item flags, one bit each.
#[derive(Clone, Copy, Debug, PartialEq, Eq, Structural)]
pub enum ItemFlags {
    Chromakeyed,
    Transparent,
    Selectable,
    Moveable,
    TxtCenter,
    Disabled,
    Fade,
    EffectsNext,
    OnlyOutGame,
    OnlyInGame,
    PerfOption,
    Multiline,
    NeedsApply,
    NeedsRestart,
    ExtendedMenu,
}

impl ItemFlags {
    /// The bit of this flag.
    pub fn bit(self) -> (r: u32)
        ensures
            r != 0,
    {
        match self {
            ItemFlags::Chromakeyed => 1,
            ItemFlags::Transparent => 2,
            ItemFlags::Selectable => 4,
            ItemFlags::Moveable => 8,
            ItemFlags::TxtCenter => 16,
            ItemFlags::Disabled => 32,
            ItemFlags::Fade => 64,
            ItemFlags::EffectsNext => 128,
            ItemFlags::OnlyOutGame => 256,
            ItemFlags::OnlyInGame => 512,
            ItemFlags::PerfOption => 1024,
            ItemFlags::Multiline => 2048,
            ItemFlags::NeedsApply => 4096,
            ItemFlags::NeedsRestart => 8192,
            ItemFlags::ExtendedMenu => 16384,
        }
    }
}

/// Kinds of menu items.
#[derive(Clone, Copy, Debug, PartialEq, Eq, Structural)]
pub enum ItemKind {
    Undef,
    Text,
    Slider,
    Input,
    Cursor,
    ChoiceBox,
    Button,
    ListBox,
}

/// A record that belongs to an instance symbol.
pub trait Instance {
    spec fn instance_symbol_spec(&self) -> usize;

    fn get_instance_symbol(&self) -> (r: usize)
        ensures
            r == self.instance_symbol_spec(),
    ;

    fn set_instance_symbol(&mut self, instance_symbol: usize)
        ensures
            final(self).instance_symbol_spec() == instance_symbol,
    ;
}
/// A non-player character.
#[derive(Debug)]
pub struct Npc {
    pub instance_symbol: usize,
    pub id: i32,
    pub name: Vec<Vec<u8>>,
    pub slot: Vec<u8>,
    pub effect: Vec<u8>,
    pub kind: i32,
    pub flags: u32,
    pub damage_type: i32,
    pub guild: i32,
    pub level: i32,
    pub fight_tactic: i32,
    pub weapon: i32,
    pub voice: i32,
    pub voice_pitch: i32,
    pub body_mass: i32,
    pub daily_routine: u32,
    pub start_ai_state: u32,
    pub spawn_point: Vec<u8>,
    pub spawn_delay: i32,
    pub senses: i32,
    pub senses_range: i32,
    pub ai_var: Vec<i32>,
    pub waypoint: Vec<u8>,
    pub exp: i32,
    pub exp_next: i32,
    pub lp: i32,
    pub body_state_interruptable_override: i32,
    pub no_focus: i32,
}

impl Npc {
    /// A record with every field empty or zero.
    pub fn new() -> (r: Npc)
        ensures
            r.instance_symbol == 0,
            r.waypoint@.len() == 0,
    {
        Npc {
            instance_symbol: 0,
            id: 0,
            name: Vec::new(),
            slot: Vec::new(),
            effect: Vec::new(),
            kind: 0,
            flags: 0,
            damage_type: 0,
            guild: 0,
            level: 0,
            fight_tactic: 0,
            weapon: 0,
            voice: 0,
            voice_pitch: 0,
            body_mass: 0,
            daily_routine: 0,
            start_ai_state: 0,
            spawn_point: Vec::new(),
            spawn_delay: 0,
            senses: 0,
            senses_range: 0,
            ai_var: Vec::new(),
            waypoint: Vec::new(),
            exp: 0,
            exp_next: 0,
            lp: 0,
            body_state_interruptable_override: 0,
            no_focus: 0,
        }
    }
}

impl Instance for Npc {
    open spec fn instance_symbol_spec(&self) -> usize {
        self.instance_symbol
    }

    fn get_instance_symbol(&self) -> (r: usize) {
        self.instance_symbol
    }

    fn set_instance_symbol(&mut self, instance_symbol: usize) {
        self.instance_symbol = instance_symbol;
    }
}

/// An item; `amount` is how many of it an inventory holds.
#[derive(Debug)]
pub struct Item {
    pub instance_symbol: usize,
    pub id: i32,
    pub name: Vec<u8>,
    pub name_id: Vec<u8>,
    pub hp: i32,
    pub hp_max: i32,
    pub main_flag: u32,
    pub flags: u32,
    pub weight: i32,
    pub value: i32,
    pub damage_type: i32,
    pub damage_total: i32,
    pub wear: i32,
    pub nutrition: i32,
    pub magic: u32,
    pub on_equip: u32,
    pub on_unequip: u32,
    pub owner: u32,
    pub owner_guild: i32,
    pub disguise_guild: i32,
    pub visual: Vec<u8>,
    pub visual_change: Vec<u8>,
    pub effect: Vec<u8>,
    pub visual_skin: i32,
    pub scheme_name: Vec<u8>,
    pub material: i32,
    pub munition: i32,
    pub spell: i32,
    pub range: i32,
    pub mag_circle: i32,
    pub description: Vec<u8>,
    pub text: Vec<Vec<u8>>,
    pub count: Vec<i32>,
    pub inv_zbias: i32,
    pub inv_rot: (i32, i32, i32),
    pub inv_animate: i32,
    pub amount: u32,
}

impl Item {
    /// A record with every field empty or zero.
    pub fn new() -> (r: Item)
        ensures
            r.instance_symbol == 0,
            r.amount == 0,
    {
        Item {
            instance_symbol: 0,
            id: 0,
            name: Vec::new(),
            name_id: Vec::new(),
            hp: 0,
            hp_max: 0,
            main_flag: 0,
            flags: 0,
            weight: 0,
            value: 0,
            damage_type: 0,
            damage_total: 0,
            wear: 0,
            nutrition: 0,
            magic: 0,
            on_equip: 0,
            on_unequip: 0,
            owner: 0,
            owner_guild: 0,
            disguise_guild: 0,
            visual: Vec::new(),
            visual_change: Vec::new(),
            effect: Vec::new(),
            visual_skin: 0,
            scheme_name: Vec::new(),
            material: 0,
            munition: 0,
            spell: 0,
            range: 0,
            mag_circle: 0,
            description: Vec::new(),
            text: Vec::new(),
            count: Vec::new(),
            inv_zbias: 0,
            inv_rot: (0, 0, 0),
            inv_animate: 0,
            amount: 0,
        }
    }
}

impl Instance for Item {
    open spec fn instance_symbol_spec(&self) -> usize {
        self.instance_symbol
    }

    fn get_instance_symbol(&self) -> (r: usize) {
        self.instance_symbol
    }

    fn set_instance_symbol(&mut self, instance_symbol: usize) {
        self.instance_symbol = instance_symbol;
    }
}

/// A mission of the log.
#[derive(Debug)]
pub struct Mission {
    pub instance_symbol: usize,
    pub name: Vec<u8>,
    pub description: Vec<u8>,
    pub duration: i32,
    pub important: i32,
    pub offer_conditions: u32,
    pub offer: u32,
    pub success_conditions: u32,
    pub success: u32,
    pub failure_conditions: u32,
    pub failure: u32,
    pub obsolete_conditions: u32,
    pub obsolete: u32,
    pub running: u32,
}

impl Mission {
    /// A record with every field empty or zero.
    pub fn new() -> (r: Mission)
        ensures
            r.instance_symbol == 0,
    {
        Mission {
            instance_symbol: 0,
            name: Vec::new(),
            description: Vec::new(),
            duration: 0,
            important: 0,
            offer_conditions: 0,
            offer: 0,
            success_conditions: 0,
            success: 0,
            failure_conditions: 0,
            failure: 0,
            obsolete_conditions: 0,
            obsolete: 0,
            running: 0,
        }
    }
}

impl Instance for Mission {
    open spec fn instance_symbol_spec(&self) -> usize {
        self.instance_symbol
    }

    fn get_instance_symbol(&self) -> (r: usize) {
        self.instance_symbol
    }

    fn set_instance_symbol(&mut self, instance_symbol: usize) {
        self.instance_symbol = instance_symbol;
    }
}

/// How an NPC reacts to an offered item.
#[derive(Debug)]
pub struct ItemReact {
    pub instance_symbol: usize,
    pub npc: i32,
    pub trade_item: i32,
    pub trade_amount: i32,
    pub requested_cat: i32,
    pub requested_item: i32,
    pub requested_amount: i32,
    pub reaction: u32,
}

impl ItemReact {
    /// A record with every field empty or zero.
    pub fn new() -> (r: ItemReact)
        ensures
            r.instance_symbol == 0,
    {
        ItemReact {
            instance_symbol: 0,
            npc: 0,
            trade_item: 0,
            trade_amount: 0,
            requested_cat: 0,
            requested_item: 0,
            requested_amount: 0,
            reaction: 0,
        }
    }
}

impl Instance for ItemReact {
    open spec fn instance_symbol_spec(&self) -> usize {
        self.instance_symbol
    }

    fn get_instance_symbol(&self) -> (r: usize) {
        self.instance_symbol
    }

    fn set_instance_symbol(&mut self, instance_symbol: usize) {
        self.instance_symbol = instance_symbol;
    }
}

/// A menu screen.
#[derive(Debug)]
pub struct Menu {
    pub instance_symbol: usize,
    pub back_pic: Vec<u8>,
    pub back_world: Vec<u8>,
    pub pos: (i32, i32),
    pub dim: (i32, i32),
    pub alpha: i32,
    pub music_theme: Vec<u8>,
    pub event_timer_millisec: i32,
    pub items: Vec<Vec<u8>>,
    pub flags: i32,
    pub default_out_game: i32,
    pub default_in_game: i32,
}

impl Menu {
    /// A record with every field empty or zero.
    pub fn new() -> (r: Menu)
        ensures
            r.instance_symbol == 0,
    {
        Menu {
            instance_symbol: 0,
            back_pic: Vec::new(),
            back_world: Vec::new(),
            pos: (0, 0),
            dim: (0, 0),
            alpha: 0,
            music_theme: Vec::new(),
            event_timer_millisec: 0,
            items: Vec::new(),
            flags: 0,
            default_out_game: 0,
            default_in_game: 0,
        }
    }
}

impl Instance for Menu {
    open spec fn instance_symbol_spec(&self) -> usize {
        self.instance_symbol
    }

    fn get_instance_symbol(&self) -> (r: usize) {
        self.instance_symbol
    }

    fn set_instance_symbol(&mut self, instance_symbol: usize) {
        self.instance_symbol = instance_symbol;
    }
}

/// An entry of a menu; float fields hold IEEE-754 bit patterns.
#[derive(Debug)]
pub struct MenuItem {
    pub instance_symbol: usize,
    pub font_name: Vec<u8>,
    pub text: Vec<Vec<u8>>,
    pub back_pic: Vec<u8>,
    pub alpha_mode: Vec<u8>,
    pub alpha: i32,
    pub kind: i32,
    pub on_sel_action: Vec<i32>,
    pub on_sel_action_s: Vec<Vec<u8>>,
    pub on_chg_set_option: Vec<u8>,
    pub on_chg_set_option_section: Vec<u8>,
    pub on_event_action: Vec<i32>,
    pub pos: (i32, i32),
    pub dim: (i32, i32),
    pub size_start_scale: u32,
    pub flags: i32,
    pub open_delay_time: u32,
    pub open_duration: u32,
    pub user_float: Vec<u32>,
    pub user_string: Vec<Vec<u8>>,
    pub frame_size: (i32, i32),
    pub hide_if_option_section_set: Vec<u8>,
    pub hide_if_option_set: Vec<u8>,
    pub hide_on_value: i32,
}

impl MenuItem {
    /// A record with every field empty or zero.
    pub fn new() -> (r: MenuItem)
        ensures
            r.instance_symbol == 0,
    {
        MenuItem {
            instance_symbol: 0,
            font_name: Vec::new(),
            text: Vec::new(),
            back_pic: Vec::new(),
            alpha_mode: Vec::new(),
            alpha: 0,
            kind: 0,
            on_sel_action: Vec::new(),
            on_sel_action_s: Vec::new(),
            on_chg_set_option: Vec::new(),
            on_chg_set_option_section: Vec::new(),
            on_event_action: Vec::new(),
            pos: (0, 0),
            dim: (0, 0),
            size_start_scale: 0,
            flags: 0,
            open_delay_time: 0,
            open_duration: 0,
            user_float: Vec::new(),
            user_string: Vec::new(),
            frame_size: (0, 0),
            hide_if_option_section_set: Vec::new(),
            hide_if_option_set: Vec::new(),
            hide_on_value: 0,
        }
    }
}

impl Instance for MenuItem {
    open spec fn instance_symbol_spec(&self) -> usize {
        self.instance_symbol
    }

    fn get_instance_symbol(&self) -> (r: usize) {
        self.instance_symbol
    }

    fn set_instance_symbol(&mut self, instance_symbol: usize) {
        self.instance_symbol = instance_symbol;
    }
}

/// Focus ranges and priorities; float fields hold IEEE-754 bit patterns.
#[derive(Debug)]
pub struct Focus {
    pub instance_symbol: usize,
    pub npc_long_range: u32,
    pub npc_range: (u32, u32),
    pub npc_azi: u32,
    pub npc_elev: (u32, u32),
    pub npc_prio: i32,
    pub item_range: (u32, u32),
    pub item_azi: u32,
    pub item_elev: (u32, u32),
    pub item_prio: i32,
    pub mob_range: (u32, u32),
    pub mob_azi: u32,
    pub mob_elev: (u32, u32),
    pub mob_prio: i32,
}

impl Focus {
    /// A record with every field empty or zero.
    pub fn new() -> (r: Focus)
        ensures
            r.instance_symbol == 0,
    {
        Focus {
            instance_symbol: 0,
            npc_long_range: 0,
            npc_range: (0, 0),
            npc_azi: 0,
            npc_elev: (0, 0),
            npc_prio: 0,
            item_range: (0, 0),
            item_azi: 0,
            item_elev: (0, 0),
            item_prio: 0,
            mob_range: (0, 0),
            mob_azi: 0,
            mob_elev: (0, 0),
            mob_prio: 0,
        }
    }
}

impl Instance for Focus {
    open spec fn instance_symbol_spec(&self) -> usize {
        self.instance_symbol
    }

    fn get_instance_symbol(&self) -> (r: usize) {
        self.instance_symbol
    }

    fn set_instance_symbol(&mut self, instance_symbol: usize) {
        self.instance_symbol = instance_symbol;
    }
}

/// A music theme; float fields hold IEEE-754 bit patterns.
#[derive(Debug)]
pub struct MusicTheme {
    pub instance_symbol: usize,
    pub file: Vec<u8>,
    pub vol: u32,
    pub loop_: i32,
    pub reverb_mix: u32,
    pub reverb_time: u32,
    pub trans_type: i32,
    pub trans_sub_type: i32,
}

impl MusicTheme {
    /// A record with every field empty or zero.
    pub fn new() -> (r: MusicTheme)
        ensures
            r.instance_symbol == 0,
    {
        MusicTheme {
            instance_symbol: 0,
            file: Vec::new(),
            vol: 0,
            loop_: 0,
            reverb_mix: 0,
            reverb_time: 0,
            trans_type: 0,
            trans_sub_type: 0,
        }
    }
}

impl Instance for MusicTheme {
    open spec fn instance_symbol_spec(&self) -> usize {
        self.instance_symbol
    }

    fn get_instance_symbol(&self) -> (r: usize) {
        self.instance_symbol
    }

    fn set_instance_symbol(&mut self, instance_symbol: usize) {
        self.instance_symbol = instance_symbol;
    }
}

/// A sound effect; float fields hold IEEE-754 bit patterns.
#[derive(Debug)]
pub struct SoundEffect {
    pub instance_symbol: usize,
    pub file: Vec<u8>,
    pub pitch_off: i32,
    pub pitch_var: i32,
    pub vol: i32,
    pub loop_: i32,
    pub loop_start_offset: i32,
    pub loop_end_offset: i32,
    pub reverb_level: u32,
    pub pfx_name: Vec<u8>,
}

impl SoundEffect {
    /// A record with every field empty or zero.
    pub fn new() -> (r: SoundEffect)
        ensures
            r.instance_symbol == 0,
    {
        SoundEffect {
            instance_symbol: 0,
            file: Vec::new(),
            pitch_off: 0,
            pitch_var: 0,
            vol: 0,
            loop_: 0,
            loop_start_offset: 0,
            loop_end_offset: 0,
            reverb_level: 0,
            pfx_name: Vec::new(),
        }
    }
}

impl Instance for SoundEffect {
    open spec fn instance_symbol_spec(&self) -> usize {
        self.instance_symbol
    }

    fn get_instance_symbol(&self) -> (r: usize) {
        self.instance_symbol
    }

    fn set_instance_symbol(&mut self, instance_symbol: usize) {
        self.instance_symbol = instance_symbol;
    }
}

/// A particle effect; float fields hold IEEE-754 bit patterns.
#[derive(Debug)]
pub struct ParticleEffect {
    pub instance_symbol: usize,
    pub pps_value: u32,
    pub pps_scale_keys: Vec<u8>,
    pub pps_is_looping: i32,
    pub pps_is_smooth: i32,
    pub pps_fps: u32,
    pub shp_type: Vec<u8>,
    pub shp_for: Vec<u8>,
    pub shp_offset_vec: Vec<u8>,
    pub shp_distrib_type: Vec<u8>,
    pub shp_mesh: Vec<u8>,
    pub dir_mode: Vec<u8>,
    pub vel_avg: u32,
    pub lsp_part_avg: u32,
    pub vis_name: Vec<u8>,
    pub vis_orientation: Vec<u8>,
    pub vis_alpha_func: Vec<u8>,
}

impl ParticleEffect {
    /// A record with every field empty or zero.
    pub fn new() -> (r: ParticleEffect)
        ensures
            r.instance_symbol == 0,
    {
        ParticleEffect {
            instance_symbol: 0,
            pps_value: 0,
            pps_scale_keys: Vec::new(),
            pps_is_looping: 0,
            pps_is_smooth: 0,
            pps_fps: 0,
            shp_type: Vec::new(),
            shp_for: Vec::new(),
            shp_offset_vec: Vec::new(),
            shp_distrib_type: Vec::new(),
            shp_mesh: Vec::new(),
            dir_mode: Vec::new(),
            vel_avg: 0,
            lsp_part_avg: 0,
            vis_name: Vec::new(),
            vis_orientation: Vec::new(),
            vis_alpha_func: Vec::new(),
        }
    }
}

impl Instance for ParticleEffect {
    open spec fn instance_symbol_spec(&self) -> usize {
        self.instance_symbol
    }

    fn get_instance_symbol(&self) -> (r: usize) {
        self.instance_symbol
    }

    fn set_instance_symbol(&mut self, instance_symbol: usize) {
        self.instance_symbol = instance_symbol;
    }
}

/// A spell; float fields hold IEEE-754 bit patterns.
#[derive(Debug)]
pub struct Spell {
    pub instance_symbol: usize,
    pub time_per_mana: u32,
    pub damage_per_level: i32,
    pub damage_type: i32,
    pub spell_type: i32,
    pub can_turn_during_invest: i32,
    pub can_change_target_during_invest: i32,
    pub is_multi_effect: i32,
    pub target_collect_algo: i32,
    pub target_collect_type: i32,
    pub target_collect_range: i32,
    pub target_collect_azi: i32,
    pub target_collect_elev: i32,
}

impl Spell {
    /// A record with every field empty or zero.
    pub fn new() -> (r: Spell)
        ensures
            r.instance_symbol == 0,
    {
        Spell {
            instance_symbol: 0,
            time_per_mana: 0,
            damage_per_level: 0,
            damage_type: 0,
            spell_type: 0,
            can_turn_during_invest: 0,
            can_change_target_during_invest: 0,
            is_multi_effect: 0,
            target_collect_algo: 0,
            target_collect_type: 0,
            target_collect_range: 0,
            target_collect_azi: 0,
            target_collect_elev: 0,
        }
    }
}

impl Instance for Spell {
    open spec fn instance_symbol_spec(&self) -> usize {
        self.instance_symbol
    }

    fn get_instance_symbol(&self) -> (r: usize) {
        self.instance_symbol
    }

    fn set_instance_symbol(&mut self, instance_symbol: usize) {
        self.instance_symbol = instance_symbol;
    }
}

impl Npc {
    pub fn set_waypoint(&mut self, waypoint: Vec<u8>)
        ensures
            *final(self) == (Npc { waypoint, ..*old(self) }),
    {
        self.waypoint = waypoint;
    }
}

/// One choice of a dialogue: its text and the function it runs.
#[derive(Debug)]
pub struct SubChoice {
    pub text: Vec<u8>,
    pub func_sym: u32,
}

impl SubChoice {
    pub fn new() -> (r: SubChoice)
        ensures
            r.text@.len() == 0,
            r.func_sym == 0,
    {
        SubChoice { text: Vec::new(), func_sym: 0 }
    }
}

/// A dialogue entry with its choices.
#[derive(Debug)]
pub struct Info {
    pub instance_symbol: usize,
    pub npc: i32,
    pub nr: i32,
    pub important: i32,
    pub condition: u32,
    pub information: u32,
    pub description: Vec<u8>,
    pub trade: i32,
    pub permanent: i32,
    pub sub_choices: Vec<SubChoice>,
}

impl Info {
    pub fn new() -> (r: Info)
        ensures
            r.instance_symbol == 0,
            r.sub_choices@.len() == 0,
    {
        Info {
            instance_symbol: 0,
            npc: 0,
            nr: 0,
            important: 0,
            condition: 0,
            information: 0,
            description: Vec::new(),
            trade: 0,
            permanent: 0,
            sub_choices: Vec::new(),
        }
    }

    /// Every field but the choices is as in `other`.
    pub open spec fn same_but_choices(&self, other: &Info) -> bool {
        &&& self.instance_symbol == other.instance_symbol
        &&& self.npc == other.npc
        &&& self.nr == other.nr
        &&& self.important == other.important
        &&& self.condition == other.condition
        &&& self.information == other.information
        &&& self.description == other.description
        &&& self.trade == other.trade
        &&& self.permanent == other.permanent
    }

    /// Appends a choice.
    pub fn add_choice(&mut self, choice: SubChoice)
        ensures
            final(self).sub_choices@ == old(self).sub_choices@.push(choice),
            final(self).same_but_choices(old(self)),
    {
        self.sub_choices.push(choice);
    }

    /// Removes the choice at `index`, shifting later ones down.
    pub fn remove_choice(&mut self, index: usize)
        requires
            index < old(self).sub_choices@.len(),
        ensures
            final(self).sub_choices@ == old(self).sub_choices@.remove(index as int),
            final(self).same_but_choices(old(self)),
    {
        self.sub_choices.remove(index);
    }
}

impl Instance for Info {
    open spec fn instance_symbol_spec(&self) -> usize {
        self.instance_symbol
    }

    fn get_instance_symbol(&self) -> (r: usize) {
        self.instance_symbol
    }

    fn set_instance_symbol(&mut self, instance_symbol: usize) {
        self.instance_symbol = instance_symbol;
    }
}

} // verus!
