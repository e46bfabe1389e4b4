//! The device: the framebuffers of a chain, the link to its chips, and what
//! is known of each chip's configuration.

use vstd::prelude::*;
use crate::chain::{blank_chain, canvas_pixel, plotted, valid_chain, Chain, MAX_MODULES};
use crate::command::{command_word, Command, Register};
use crate::error::{ConfigError, Error};
use crate::framebuffer::{blank_rows, Framebuffer};
use crate::glyph::{render_char, render_text, rendered, rendered_text, GlyphTable};
use crate::transfer::{frame_bytes, Link, Transport};

verus! {

/// One setting of a chip.
#[derive(Clone, Copy, Debug, PartialEq, Eq)]
pub enum Setting {
    /// Brightness, 0 to 15; higher bits are dropped.
    Intensity(u8),
    /// The highest row that is scanned, 0 to 7; higher bits are dropped.
    ScanLimit(u8),
    /// `true` blanks the module, `false` lets it show its rows.
    Shutdown(bool),
    /// One bit per row that the chip decodes as a seven-segment digit; 0
    /// shows the rows as bitmaps.
    DecodeMode(u8),
}

/// The modules a setting goes to.
#[derive(Clone, Copy, Debug, PartialEq, Eq)]
pub enum Target {
    Module(usize),
    All,
}

/// How far a module is on its way to showing its framebuffer.
#[derive(Clone, Copy, Debug, PartialEq, Eq, Structural)]
pub enum Stage {
    /// Some setting that bitmaps need has not reached the chip, or a fault
    /// on the bus has made the chip's state unknown.
    Unconfigured,
    /// The chip is set up for bitmaps; no flush has reached it since.
    Configured,
    /// The chip is set up for bitmaps and has taken a flush.
    Ready,
}

/// What is known of one chip: the settings that reached it, as the chip
/// holds them, and whether it has taken a flush while set up for bitmaps.
#[derive(Clone, Copy, Debug)]
pub struct ModuleConfig {
    pub intensity: Option<u8>,
    pub scan_limit: Option<u8>,
    pub shutdown: Option<bool>,
    pub decode_mode: Option<u8>,
    pub shown: bool,
}

/// Nothing is known of the chip.
pub open spec fn unknown_config() -> ModuleConfig {
    ModuleConfig {
        intensity: None,
        scan_limit: None,
        shutdown: None,
        decode_mode: None,
        shown: false,
    }
}

/// The command that carries a setting.
pub open spec fn setting_command(setting: Setting) -> Command {
    match setting {
        Setting::Intensity(level) => Command { register: Register::Intensity, value: level },
        Setting::ScanLimit(limit) => Command { register: Register::ScanLimit, value: limit },
        Setting::Shutdown(on) => Command {
            register: Register::Shutdown,
            value: if on {
                0u8
            } else {
                1u8
            },
        },
        Setting::DecodeMode(rows) => Command { register: Register::DecodeMode, value: rows },
    }
}

/// What is known of a chip after `setting` reached it.
pub open spec fn with_setting(config: ModuleConfig, setting: Setting) -> ModuleConfig {
    match setting {
        Setting::Intensity(level) => ModuleConfig {
            intensity: Some(Register::Intensity.payload(level)),
            ..config
        },
        Setting::ScanLimit(limit) => ModuleConfig {
            scan_limit: Some(Register::ScanLimit.payload(limit)),
            ..config
        },
        Setting::Shutdown(on) => ModuleConfig { shutdown: Some(on), ..config },
        Setting::DecodeMode(rows) => ModuleConfig { decode_mode: Some(rows), ..config },
    }
}

/// Whether the chip is set up for bitmaps: no row is decoded, all eight rows
/// are scanned, a brightness is set, and the module is not shut down.
pub open spec fn set_up(config: ModuleConfig) -> bool {
    &&& config.decode_mode == Some(0u8)
    &&& config.scan_limit == Some(7u8)
    &&& config.intensity is Some
    &&& config.shutdown == Some(false)
}

/// The stage that follows from what is known of a chip.
pub open spec fn stage_of(config: ModuleConfig) -> Stage {
    if !set_up(config) {
        Stage::Unconfigured
    } else if config.shown {
        Stage::Ready
    } else {
        Stage::Configured
    }
}

/// What is known of a chip after a flush reached it.
pub open spec fn with_flush(config: ModuleConfig) -> ModuleConfig {
    ModuleConfig { shown: config.shown || set_up(config), ..config }
}

/// Whether `a`, `b`, `c` and `d` are the four settings of
/// [`bitmap_settings`] in some order.
pub open spec fn bitmap_settings_in_some_order(
    level: u8,
    a: Setting,
    b: Setting,
    c: Setting,
    d: Setting,
) -> bool {
    forall|i: int|
        0 <= i < 4 ==> {
            let s = #[trigger] bitmap_settings(level)[i];
            s == a || s == b || s == c || s == d
        }
}

/// A chip that the four bitmap settings reached, in whatever order and
/// whatever was known of it before, is set up.
pub proof fn lemma_set_up_in_any_order(
    config: ModuleConfig,
    level: u8,
    a: Setting,
    b: Setting,
    c: Setting,
    d: Setting,
)
    requires
        bitmap_settings_in_some_order(level, a, b, c, d),
    ensures
        set_up(with_setting(with_setting(with_setting(with_setting(config, a), b), c), d)),
        set_up(with_bitmap_settings(config, level)),
{
    assert(bitmap_settings(level)[0] == Setting::DecodeMode(0));
    assert(bitmap_settings(level)[1] == Setting::ScanLimit(7));
    assert(bitmap_settings(level)[2] == Setting::Intensity(level));
    assert(bitmap_settings(level)[3] == Setting::Shutdown(false));
}

/// A flush makes a chip ready exactly if it is set up; a chip of which
/// nothing is known is unconfigured.
pub proof fn lemma_stage_progress(config: ModuleConfig)
    ensures
        set_up(config) ==> stage_of(with_flush(config)) == Stage::Ready,
        !set_up(config) ==> stage_of(with_flush(config)) == Stage::Unconfigured,
        stage_of(unknown_config()) == Stage::Unconfigured,
{
}

impl Setting {
    /// Computes [`setting_command`].
    pub fn command(self) -> (c: Command)
        ensures
            c == setting_command(self),
    {
        match self {
            Setting::Intensity(level) => Command::new(Register::Intensity, level),
            Setting::ScanLimit(limit) => Command::new(Register::ScanLimit, limit),
            Setting::Shutdown(on) => Command::new(
                Register::Shutdown,
                if on {
                    0u8
                } else {
                    1u8
                },
            ),
            Setting::DecodeMode(rows) => Command::new(Register::DecodeMode, rows),
        }
    }
}

impl ModuleConfig {
    /// Computes [`unknown_config`].
    pub fn unknown() -> (config: ModuleConfig)
        ensures
            config == unknown_config(),
    {
        ModuleConfig {
            intensity: None,
            scan_limit: None,
            shutdown: None,
            decode_mode: None,
            shown: false,
        }
    }

    /// Computes [`with_setting`].
    pub fn apply(self, setting: Setting) -> (config: ModuleConfig)
        ensures
            config == with_setting(self, setting),
    {
        let mut config: ModuleConfig = self;
        match setting {
            Setting::Intensity(level) => {
                config.intensity = Some(Register::Intensity.mask(level));
            },
            Setting::ScanLimit(limit) => {
                config.scan_limit = Some(Register::ScanLimit.mask(limit));
            },
            Setting::Shutdown(on) => {
                config.shutdown = Some(on);
            },
            Setting::DecodeMode(rows) => {
                config.decode_mode = Some(rows);
            },
        }
        config
    }

    /// Computes [`set_up`].
    pub fn is_set_up(&self) -> (b: bool)
        ensures
            b == set_up(*self),
    {
        let decoded: bool = match self.decode_mode {
            Some(rows) => rows != 0,
            None => true,
        };
        let scanned: bool = match self.scan_limit {
            Some(limit) => limit == 7,
            None => false,
        };
        let awake: bool = match self.shutdown {
            Some(on) => !on,
            None => false,
        };
        !decoded && scanned && self.intensity.is_some() && awake
    }

    /// Computes [`stage_of`].
    pub fn stage(&self) -> (s: Stage)
        ensures
            s == stage_of(*self),
    {
        if !self.is_set_up() {
            Stage::Unconfigured
        } else if self.shown {
            Stage::Ready
        } else {
            Stage::Configured
        }
    }

    /// Computes [`with_flush`].
    pub fn flushed(self) -> (config: ModuleConfig)
        ensures
            config == with_flush(self),
    {
        let mut config: ModuleConfig = self;
        if self.is_set_up() {
            config.shown = true;
        }
        config
    }
}

/// The frame that writes row `y` of module `m` as the chain holds it.
pub open spec fn row_frame(chain: Seq<Seq<u8>>, m: int, y: int) -> Seq<u8> {
    frame_bytes(chain.len(), m as nat, command_word(Register::Digit(y as u8), chain[m][y]))
}

/// The frames of a flush of module `m`: its eight rows, top row first.
pub open spec fn module_plan(chain: Seq<Seq<u8>>, m: int) -> Seq<Seq<u8>> {
    Seq::new(8, |y: int| row_frame(chain, m, y))
}

/// The frames of a flush: for every module, module 0 first, its eight rows,
/// top row first.  Every row of every module is written, changed or not.
pub open spec fn flush_plan(chain: Seq<Seq<u8>>) -> Seq<Seq<u8>> {
    Seq::new(8 * chain.len(), |i: int| row_frame(chain, i / 8, i % 8))
}

/// The frame that brings `setting` to module `m` of a chain of `n`.
pub open spec fn setting_frame(n: nat, m: int, setting: Setting) -> Seq<u8> {
    frame_bytes(n, m as nat, setting_command(setting).word())
}

/// The frames of a configuration: one for the module named, or one for
/// every module, module 0 first.
pub open spec fn config_plan(n: nat, target: Target, setting: Setting) -> Seq<Seq<u8>> {
    match target {
        Target::Module(m) => seq![setting_frame(n, m as int, setting)],
        Target::All => Seq::new(n, |m: int| setting_frame(n, m, setting)),
    }
}

/// Whether `target` names modules of a chain of `n`.
pub open spec fn target_in_chain(n: nat, target: Target) -> bool {
    match target {
        Target::Module(m) => m < n,
        Target::All => true,
    }
}

/// Whether `target` covers module `m`.
pub open spec fn covers(target: Target, m: int) -> bool {
    match target {
        Target::Module(t) => t == m,
        Target::All => true,
    }
}

/// How the record of issued frames grows when `plan` is carried out: with
/// success by the whole plan; with a fault by the frames up to and with the
/// one that failed, at least one.
pub open spec fn carried_out(
    plan: Seq<Seq<u8>>,
    before: Seq<Seq<u8>>,
    after: Seq<Seq<u8>>,
    ok: bool,
) -> bool {
    if ok {
        after == before + plan
    } else {
        exists|k: int| 0 < k <= plan.len() && after == before + plan.take(k)
    }
}

/// The settings that set a chip up for bitmaps at the given brightness, in
/// the order in which they are sent: no row decoded, all eight rows scanned,
/// the brightness, and last the wake-up.
pub open spec fn bitmap_settings(intensity: u8) -> Seq<Setting> {
    seq![
        Setting::DecodeMode(0),
        Setting::ScanLimit(7),
        Setting::Intensity(intensity),
        Setting::Shutdown(false),
    ]
}

/// The frames that set every chip of a chain of `n` up for bitmaps: each
/// setting of [`bitmap_settings`] in turn, to every module.
pub open spec fn init_plan(n: nat, intensity: u8) -> Seq<Seq<u8>> {
    config_plan(n, Target::All, bitmap_settings(intensity)[0]) + config_plan(
        n,
        Target::All,
        bitmap_settings(intensity)[1],
    ) + config_plan(n, Target::All, bitmap_settings(intensity)[2]) + config_plan(
        n,
        Target::All,
        bitmap_settings(intensity)[3],
    )
}

/// What is known of a chip after [`bitmap_settings`] reached it.
pub open spec fn with_bitmap_settings(config: ModuleConfig, intensity: u8) -> ModuleConfig {
    ModuleConfig {
        decode_mode: Some(0u8),
        scan_limit: Some(7u8),
        intensity: Some(Register::Intensity.payload(intensity)),
        shutdown: Some(false),
        shown: config.shown,
    }
}

/// Carrying out one plan and then, if it succeeded, a second is carrying out
/// the two as one.
pub proof fn lemma_carried_out_then(
    first: Seq<Seq<u8>>,
    second: Seq<Seq<u8>>,
    before: Seq<Seq<u8>>,
    between: Seq<Seq<u8>>,
    after: Seq<Seq<u8>>,
    ok: bool,
)
    requires
        carried_out(first, before, between, true),
        carried_out(second, between, after, ok),
    ensures
        carried_out(first + second, before, after, ok),
{
    if ok {
        assert(before + first + second =~= before + (first + second));
    } else {
        let k = choose|k: int| 0 < k <= second.len() && after == between + second.take(k);
        assert(before + first + second.take(k) =~= before + (first + second).take(
            first.len() + k,
        ));
    }
}

/// A plan that failed part of the way through is a longer plan that failed
/// at the same place.
pub proof fn lemma_carried_out_short(
    first: Seq<Seq<u8>>,
    rest: Seq<Seq<u8>>,
    before: Seq<Seq<u8>>,
    after: Seq<Seq<u8>>,
)
    requires
        carried_out(first, before, after, false),
    ensures
        carried_out(first + rest, before, after, false),
{
    let k = choose|k: int| 0 < k <= first.len() && after == before + first.take(k);
    assert(first.take(k) =~= (first + rest).take(k));
}

/// Nothing is known of any chip of a chain of `n`.
pub open spec fn unknown_configs(n: nat) -> Seq<ModuleConfig> {
    Seq::new(n, |m: int| unknown_config())
}

/// What is known of the chips after `setting` reached the modules of
/// `target`.
pub open spec fn configs_with(
    configs: Seq<ModuleConfig>,
    target: Target,
    setting: Setting,
) -> Seq<ModuleConfig> {
    Seq::new(
        configs.len(),
        |m: int|
            if covers(target, m) {
                with_setting(configs[m], setting)
            } else {
                configs[m]
            },
    )
}

/// What is known of the chips after a flush reached the modules of `target`.
pub open spec fn configs_flushed(configs: Seq<ModuleConfig>, target: Target) -> Seq<ModuleConfig> {
    Seq::new(
        configs.len(),
        |m: int|
            if covers(target, m) {
                with_flush(configs[m])
            } else {
                configs[m]
            },
    )
}

/// A flush of blank framebuffers writes zero to every row of every module:
/// frame `8 * m + y` holds, at module `m`'s place, the address of row `y` and
/// the value 0, and no-ops at every other place.
pub proof fn lemma_flush_of_blank(n: nat, m: int, y: int)
    requires
        1 <= n,
        0 <= m < n,
        0 <= y < 8,
    ensures
        flush_plan(blank_chain(n)).len() == 8 * n,
        flush_plan(blank_chain(n))[8 * m + y] == frame_bytes(
            n,
            m as nat,
            seq![(y + 1) as u8, 0u8],
        ),
{
    let i = 8 * m + y;
    assert(i / 8 == m && i % 8 == y);
    assert(command_word(Register::Digit(y as u8), blank_chain(n)[m][y]) =~= seq![
        (y + 1) as u8,
        0u8,
    ]);
}

/// All that a device holds besides its framebuffers: the transport, the
/// record of the frames built for it, and what is known of every chip.
/// Drawing leaves all of it as it is.
pub struct Hardware<T> {
    pub transport: T,
    pub issued: Seq<Seq<u8>>,
    pub configs: Seq<ModuleConfig>,
}

/// A chain of modules behind one bus.
///
/// The device owns the bus for as long as it lives.  Drawing changes the
/// framebuffers only; what the modules show changes when the buffers are
/// flushed.
pub struct Device<T: Transport> {
    link: Link<T>,
    chain: Chain,
    configs: Vec<ModuleConfig>,
}

impl<T: Transport> Device<T> {
    /// The invariant of every device: one framebuffer and one configuration
    /// record per module of the chain.
    pub closed spec fn wf(&self) -> bool {
        &&& self.link.wf()
        &&& self.chain.wf()
        &&& self.link.chain_len() == self.chain@.len()
        &&& self.configs@.len() == self.chain@.len()
    }

    /// The rows of every framebuffer, module 0 first.
    pub closed spec fn buffers(&self) -> Seq<Seq<u8>> {
        self.chain@
    }

    /// The frames that the device has built for the transport so far,
    /// oldest first, whether or not the transport then reported a fault.
    /// It is the record that the link keeps of what it built; see
    /// [`Link::issued`].
    pub closed spec fn issued(&self) -> Seq<Seq<u8>> {
        self.link.issued()
    }

    /// What is known of every chip, module 0 first.
    pub closed spec fn configs(&self) -> Seq<ModuleConfig> {
        self.configs@
    }

    /// The transport.
    pub closed spec fn transport(&self) -> T {
        self.link.transport()
    }

    /// All that the device holds besides its framebuffers.
    pub open spec fn hardware(&self) -> Hardware<T> {
        Hardware { transport: self.transport(), issued: self.issued(), configs: self.configs() }
    }

    /// A device has between 1 and [`MAX_MODULES`] modules of eight rows, and
    /// a configuration record for each.
    pub proof fn lemma_shape(&self)
        requires
            self.wf(),
        ensures
            valid_chain(self.buffers()),
            self.configs().len() == self.buffers().len(),
    {
    }

    /// A device over `bus` with `modules` blank framebuffers; refused unless
    /// `1 <= modules <= MAX_MODULES`.  Nothing is put on the bus, and
    /// nothing is known of the chips.
    pub fn new(bus: T, modules: usize) -> (r: Result<Device<T>, ConfigError>)
        ensures
            r is Ok <==> 1 <= modules <= MAX_MODULES,
            r matches Ok(device) ==> {
                &&& device.wf()
                &&& device.buffers() == blank_chain(modules as nat)
                &&& device.configs() == unknown_configs(modules as nat)
                &&& device.issued() == Seq::<Seq<u8>>::empty()
                &&& device.transport() == bus
            },
            r matches Err(e) ==> e == ConfigError::InvalidChainLength,
    {
        let chain: Chain = match Chain::new(modules) {
            Ok(chain) => chain,
            Err(e) => {
                return Err(e);
            },
        };
        let link: Link<T> = match Link::new(bus, modules) {
            Ok(link) => link,
            Err(e) => {
                return Err(e);
            },
        };
        let mut configs: Vec<ModuleConfig> = Vec::new();
        let mut m: usize = 0;
        while m < modules
            invariant
                m <= modules,
                configs@.len() == m,
                forall|k: int| 0 <= k < m ==> #[trigger] configs@[k] == unknown_config(),
            decreases modules - m,
        {
            configs.push(ModuleConfig::unknown());
            m += 1;
        }
        assert(configs@ =~= unknown_configs(modules as nat));
        Ok(Device { link, chain, configs })
    }

    /// The number of modules.
    pub fn len(&self) -> (n: usize)
        requires
            self.wf(),
        ensures
            n == self.buffers().len(),
            1 <= n <= MAX_MODULES,
    {
        self.chain.len()
    }

    /// Gives the transport back.
    pub fn release(self) -> (bus: T)
        ensures
            bus == self.transport(),
    {
        self.link.release()
    }

    /// A copy of one module's framebuffer.
    pub fn buffer(&self, index: usize) -> (r: Result<Framebuffer, ConfigError>)
        requires
            self.wf(),
        ensures
            r is Ok <==> index < self.buffers().len(),
            r matches Ok(fb) ==> fb@ == self.buffers()[index as int],
            r matches Err(e) ==> e == ConfigError::InvalidModule,
    {
        self.chain.module(index)
    }

    /// What is known of one chip.
    pub fn config(&self, index: usize) -> (r: Result<ModuleConfig, ConfigError>)
        requires
            self.wf(),
        ensures
            r is Ok <==> index < self.buffers().len(),
            r matches Ok(config) ==> config == self.configs()[index as int],
            r matches Err(e) ==> e == ConfigError::InvalidModule,
    {
        if index >= self.configs.len() {
            return Err(ConfigError::InvalidModule);
        }
        Ok(self.configs[index])
    }

    /// The stage of one module.
    pub fn stage(&self, index: usize) -> (r: Result<Stage, ConfigError>)
        requires
            self.wf(),
        ensures
            r is Ok <==> index < self.buffers().len(),
            r matches Ok(stage) ==> stage == stage_of(self.configs()[index as int]),
            r matches Err(e) ==> e == ConfigError::InvalidModule,
    {
        match self.config(index) {
            Ok(config) => Ok(config.stage()),
            Err(e) => Err(e),
        }
    }

    /// Switches every pixel of every module off.  The bus is not used: the
    /// modules show the change after the next flush.
    pub fn clear_buffer(&mut self)
        requires
            old(self).wf(),
        ensures
            final(self).wf(),
            final(self).buffers() == blank_chain(old(self).buffers().len()),
            final(self).hardware() == old(self).hardware(),
    {
        self.chain.clear_all();
    }

    /// Switches every pixel of one module off.  The bus is not used.
    pub fn clear(&mut self, index: usize) -> (r: Result<(), ConfigError>)
        requires
            old(self).wf(),
        ensures
            final(self).wf(),
            final(self).hardware() == old(self).hardware(),
            r is Ok <==> index < old(self).buffers().len(),
            r is Ok ==> final(self).buffers() == old(self).buffers().update(
                index as int,
                blank_rows(),
            ),
            r matches Err(e) ==> e == ConfigError::InvalidModule && final(self).buffers() == old(
                self,
            ).buffers(),
    {
        self.chain.clear(index)
    }

    /// Writes the pixel at `(gx, gy)` of the canvas that the modules form
    /// side by side; a coordinate off the canvas is dropped.  The bus is not
    /// used.
    pub fn plot(&mut self, gx: i32, gy: i32, on: bool)
        requires
            old(self).wf(),
        ensures
            final(self).wf(),
            final(self).buffers() == plotted(old(self).buffers(), gx as int, gy as int, on),
            final(self).hardware() == old(self).hardware(),
    {
        self.chain.plot(gx, gy, on);
    }

    /// Reads the pixel at `(gx, gy)` of the canvas from the framebuffers;
    /// `None` off the canvas.
    pub fn pixel_at(&self, gx: i32, gy: i32) -> (r: Option<bool>)
        requires
            self.wf(),
        ensures
            r == canvas_pixel(self.buffers(), gx as int, gy as int),
    {
        self.chain.pixel_at(gx, gy)
    }

    /// Puts the glyph of `c` into one module's framebuffer in place of what
    /// it held; a character without a glyph leaves it blank.  The bus is not
    /// used.
    pub fn draw_char(&mut self, table: &GlyphTable, index: usize, c: char) -> (r: Result<
        (),
        ConfigError,
    >)
        requires
            old(self).wf(),
        ensures
            final(self).wf(),
            final(self).hardware() == old(self).hardware(),
            r is Ok <==> index < old(self).buffers().len(),
            r is Ok ==> final(self).buffers() == old(self).buffers().update(
                index as int,
                rendered(table@, c),
            ),
            r matches Err(e) ==> e == ConfigError::InvalidModule && final(self).buffers() == old(
                self,
            ).buffers(),
    {
        let mut fb: Framebuffer = Framebuffer::new();
        render_char(&mut fb, table, c);
        self.chain.set_module(index, fb)
    }

    /// Puts `text` into the framebuffers, one character per module from
    /// module 0 on; see [`render_text`].  The bus is not used.
    pub fn draw_text(&mut self, table: &GlyphTable, text: &str)
        requires
            old(self).wf(),
        ensures
            final(self).wf(),
            final(self).buffers() == rendered_text(old(self).buffers(), table@, text@),
            final(self).hardware() == old(self).hardware(),
    {
        render_text(&mut self.chain, table, text);
    }

    /// Forgets what was known of every chip.
    fn forget(&mut self)
        requires
            old(self).wf(),
        ensures
            final(self).wf(),
            final(self).buffers() == old(self).buffers(),
            final(self).issued() == old(self).issued(),
            final(self).configs() == unknown_configs(old(self).buffers().len()),
    {
        let n: usize = self.configs.len();
        let mut m: usize = 0;
        while m < n
            invariant
                m <= n,
                n == self.configs@.len(),
                self.wf(),
                self.buffers() == old(self).buffers(),
                self.issued() == old(self).issued(),
                forall|k: int| 0 <= k < m ==> #[trigger] self.configs@[k] == unknown_config(),
            decreases n - m,
        {
            self.configs[m] = ModuleConfig::unknown();
            m += 1;
        }
        assert(self.configs@ =~= unknown_configs(old(self).buffers().len()));
    }

    /// Brings one setting to one module.
    fn send_setting(&mut self, index: usize, setting: Setting) -> (r: Result<
        (),
        Error<T::Error>,
    >)
        requires
            old(self).wf(),
            index < old(self).buffers().len(),
        ensures
            final(self).wf(),
            final(self).buffers() == old(self).buffers(),
            final(self).issued() == old(self).issued().push(
                setting_frame(old(self).buffers().len(), index as int, setting),
            ),
            r is Ok || r matches Err(Error::Transfer(_)),
            r is Ok ==> final(self).configs() == old(self).configs().update(
                index as int,
                with_setting(old(self).configs()[index as int], setting),
            ),
            r is Err ==> final(self).configs() == unknown_configs(old(self).buffers().len()),
    {
        match self.link.send(index, setting.command()) {
            Ok(()) => {
                let config: ModuleConfig = self.configs[index].apply(setting);
                self.configs[index] = config;
                Ok(())
            },
            Err(e) => {
                self.forget();
                Err(e)
            },
        }
    }

    /// Writes the eight rows of one module's framebuffer to its chip.
    fn send_rows(&mut self, index: usize) -> (r: Result<(), Error<T::Error>>)
        requires
            old(self).wf(),
            index < old(self).buffers().len(),
        ensures
            final(self).wf(),
            final(self).buffers() == old(self).buffers(),
            r is Ok || r matches Err(Error::Transfer(_)),
            carried_out(
                module_plan(old(self).buffers(), index as int),
                old(self).issued(),
                final(self).issued(),
                r is Ok,
            ),
            r is Ok ==> final(self).configs() == old(self).configs().update(
                index as int,
                with_flush(old(self).configs()[index as int]),
            ),
            r is Err ==> final(self).configs() == unknown_configs(old(self).buffers().len()),
    {
        let ghost plan = module_plan(old(self).buffers(), index as int);
        let fb: Framebuffer = match self.chain.module(index) {
            Ok(fb) => fb,
            Err(e) => {
                return Err(Error::Config(e));
            },
        };
        let mut y: u8 = 0;
        assert(self.issued() =~= old(self).issued() + plan.take(0));
        while y < 8
            invariant
                y <= 8,
                self.wf(),
                index < self.buffers().len(),
                self.buffers() == old(self).buffers(),
                self.configs() == old(self).configs(),
                fb@ == self.buffers()[index as int],
                plan == module_plan(old(self).buffers(), index as int),
                self.issued() == old(self).issued() + plan.take(y as int),
            decreases 8 - y,
        {
            let sent = self.link.send(index, Command::new(Register::Digit(y), fb.row(y)));
            proof {
                assert(plan[y as int] == row_frame(old(self).buffers(), index as int, y as int));
                assert(self.issued() =~= old(self).issued() + plan.take(y as int + 1));
            }
            match sent {
                Ok(()) => {},
                Err(e) => {
                    self.forget();
                    return Err(e);
                },
            }
            y += 1;
        }
        assert(plan.take(8) =~= plan);
        let config: ModuleConfig = self.configs[index].flushed();
        self.configs[index] = config;
        Ok(())
    }

    /// Brings one setting to one module or to all of them, one frame per
    /// module.  A module index outside the chain is refused before anything
    /// is put on the bus.  The first fault of the transport ends the
    /// operation and is passed on; nothing is then known of any chip.
    pub fn configure(&mut self, target: Target, setting: Setting) -> (r: Result<
        (),
        Error<T::Error>,
    >)
        requires
            old(self).wf(),
        ensures
            final(self).wf(),
            final(self).buffers() == old(self).buffers(),
            !target_in_chain(old(self).buffers().len(), target) ==> {
                &&& r == Err::<(), Error<T::Error>>(Error::Config(ConfigError::InvalidModule))
                &&& final(self).hardware() == old(self).hardware()
            },
            target_in_chain(old(self).buffers().len(), target) ==> {
                &&& (r is Ok || r matches Err(Error::Transfer(_)))
                &&& carried_out(
                    config_plan(old(self).buffers().len(), target, setting),
                    old(self).issued(),
                    final(self).issued(),
                    r is Ok,
                )
                &&& r is Ok ==> final(self).configs() == configs_with(
                    old(self).configs(),
                    target,
                    setting,
                )
                &&& r is Err ==> final(self).configs() == unknown_configs(
                    old(self).buffers().len(),
                )
            },
            target matches Target::Module(m) ==> (m < old(self).buffers().len() ==> final(
                self
            ).issued() == old(self).issued().push(
                setting_frame(old(self).buffers().len(), m as int, setting),
            )),
    {
        let n: usize = self.chain.len();
        let ghost plan = config_plan(n as nat, target, setting);
        match target {
            Target::Module(index) => {
                if index >= n {
                    return Err(Error::Config(ConfigError::InvalidModule));
                }
                let r = self.send_setting(index, setting);
                proof {
                    assert(plan.take(1) =~= plan);
                    assert(self.issued() =~= old(self).issued() + plan);
                    if r is Ok {
                        assert(self.configs() =~= configs_with(
                            old(self).configs(),
                            target,
                            setting,
                        ));
                    }
                }
                r
            },
            Target::All => {
                let mut m: usize = 0;
                assert(self.issued() =~= old(self).issued() + plan.take(0));
                while m < n
                    invariant
                        m <= n,
                        n == self.buffers().len(),
                        self.wf(),
                        self.buffers() == old(self).buffers(),
                        target == Target::All,
                        plan == config_plan(n as nat, target, setting),
                        self.issued() == old(self).issued() + plan.take(m as int),
                        self.configs().len() == n,
                        forall|k: int|
                            0 <= k < n ==> #[trigger] self.configs()[k] == if k < m {
                                with_setting(old(self).configs()[k], setting)
                            } else {
                                old(self).configs()[k]
                            },
                    decreases n - m,
                {
                    let sent = self.send_setting(m, setting);
                    proof {
                        assert(self.issued() =~= old(self).issued() + plan.take(m as int + 1));
                    }
                    match sent {
                        Ok(()) => {},
                        Err(e) => {
                            return Err(e);
                        },
                    }
                    m += 1;
                }
                proof {
                    assert(plan.take(n as int) =~= plan);
                    assert(self.configs() =~= configs_with(old(self).configs(), target, setting));
                }
                Ok(())
            },
        }
    }

    /// Sets every chip up for bitmaps at the given brightness: sends the
    /// settings of [`bitmap_settings`] in turn, each to every module.  The
    /// first fault of the transport ends the operation and is passed on;
    /// nothing is then known of any chip.
    pub fn init(&mut self, intensity: u8) -> (r: Result<(), Error<T::Error>>)
        requires
            old(self).wf(),
        ensures
            final(self).wf(),
            final(self).buffers() == old(self).buffers(),
            r is Ok || r matches Err(Error::Transfer(_)),
            carried_out(
                init_plan(old(self).buffers().len(), intensity),
                old(self).issued(),
                final(self).issued(),
                r is Ok,
            ),
            r is Ok ==> final(self).configs() == Seq::new(
                old(self).configs().len(),
                |m: int| with_bitmap_settings(old(self).configs()[m], intensity),
            ),
            r is Ok ==> forall|m: int|
                0 <= m < final(self).configs().len() ==> set_up(#[trigger] final(self).configs()[m]),
            r is Err ==> final(self).configs() == unknown_configs(old(self).buffers().len()),
    {
        let ghost n = old(self).buffers().len();
        let ghost p0 = config_plan(n, Target::All, Setting::DecodeMode(0));
        let ghost p1 = config_plan(n, Target::All, Setting::ScanLimit(7));
        let ghost p2 = config_plan(n, Target::All, Setting::Intensity(intensity));
        let ghost p3 = config_plan(n, Target::All, Setting::Shutdown(false));
        let ghost start = self.issued();

        let first = self.configure(Target::All, Setting::DecodeMode(0));
        if let Err(e) = first {
            proof {
                lemma_carried_out_short(p0, p1 + p2 + p3, start, self.issued());
                assert(p0 + (p1 + p2 + p3) =~= init_plan(n, intensity));
            }
            return Err(e);
        }
        let ghost after0 = self.issued();
        let second = self.configure(Target::All, Setting::ScanLimit(7));
        if let Err(e) = second {
            proof {
                lemma_carried_out_then(p0, p1, start, after0, self.issued(), false);
                lemma_carried_out_short(p0 + p1, p2 + p3, start, self.issued());
                assert((p0 + p1) + (p2 + p3) =~= init_plan(n, intensity));
            }
            return Err(e);
        }
        let ghost after1 = self.issued();
        let third = self.configure(Target::All, Setting::Intensity(intensity));
        if let Err(e) = third {
            proof {
                lemma_carried_out_then(p0, p1, start, after0, after1, true);
                lemma_carried_out_then(p0 + p1, p2, start, after1, self.issued(), false);
                lemma_carried_out_short(p0 + p1 + p2, p3, start, self.issued());
            }
            return Err(e);
        }
        let ghost after2 = self.issued();
        let fourth = self.configure(Target::All, Setting::Shutdown(false));
        proof {
            lemma_carried_out_then(p0, p1, start, after0, after1, true);
            lemma_carried_out_then(p0 + p1, p2, start, after1, after2, true);
            lemma_carried_out_then(p0 + p1 + p2, p3, start, after2, self.issued(), fourth is Ok);
        }
        if let Err(e) = fourth {
            return Err(e);
        }
        assert(self.configs() =~= Seq::new(
            old(self).configs().len(),
            |m: int| with_bitmap_settings(old(self).configs()[m], intensity),
        ));
        Ok(())
    }

    /// Writes every row of every framebuffer to the chips: module 0 first,
    /// and of each module the top row first, one frame per row.  The
    /// framebuffers are read, never changed.  The first fault of the
    /// transport ends the flush and is passed on; nothing is then known of
    /// any chip.
    pub fn flush(&mut self) -> (r: Result<(), Error<T::Error>>)
        requires
            old(self).wf(),
        ensures
            final(self).wf(),
            final(self).buffers() == old(self).buffers(),
            r is Ok || r matches Err(Error::Transfer(_)),
            carried_out(
                flush_plan(old(self).buffers()),
                old(self).issued(),
                final(self).issued(),
                r is Ok,
            ),
            r is Ok ==> final(self).configs() == configs_flushed(old(self).configs(), Target::All),
            r is Err ==> final(self).configs() == unknown_configs(old(self).buffers().len()),
    {
        let n: usize = self.chain.len();
        let ghost plan = flush_plan(old(self).buffers());
        let mut m: usize = 0;
        assert(self.issued() =~= old(self).issued() + plan.take(0));
        while m < n
            invariant
                m <= n,
                n == self.buffers().len(),
                self.wf(),
                self.buffers() == old(self).buffers(),
                plan == flush_plan(old(self).buffers()),
                self.issued() == old(self).issued() + plan.take(8 * m),
                self.configs().len() == n,
                forall|k: int|
                    0 <= k < n ==> #[trigger] self.configs()[k] == if k < m {
                        with_flush(old(self).configs()[k])
                    } else {
                        old(self).configs()[k]
                    },
            decreases n - m,
        {
            let ghost before = self.issued();
            let ghost rows = module_plan(old(self).buffers(), m as int);
            let sent = self.send_rows(m);
            proof {
                assert forall|k: int| 0 <= k <= 8 implies #[trigger] (plan.take(8 * m) + rows.take(
                    k,
                )) == plan.take(8 * m + k) by {
                    assert(plan.take(8 * m) + rows.take(k) =~= plan.take(8 * m + k));
                }
                assert(rows.take(8) =~= rows);
                if sent is Ok {
                    assert(self.issued() == old(self).issued() + (plan.take(8 * m) + rows.take(
                        8,
                    ))) by {
                        assert(before + rows =~= old(self).issued() + (plan.take(8 * m) + rows));
                    }
                } else {
                    let k = choose|k: int| 0 < k <= rows.len() && self.issued() == before + rows.take(k);
                    assert(before + rows.take(k) =~= old(self).issued() + (plan.take(8 * m)
                        + rows.take(k)));
                    assert(self.issued() == old(self).issued() + plan.take(8 * m + k));
                }
            }
            match sent {
                Ok(()) => {},
                Err(e) => {
                    return Err(e);
                },
            }
            m += 1;
        }
        proof {
            assert(plan.take(8 * n) =~= plan);
            assert(self.configs() =~= configs_flushed(old(self).configs(), Target::All));
        }
        Ok(())
    }

    /// Writes the eight rows of one module's framebuffer to its chip, top
    /// row first.  A module index outside the chain is refused before
    /// anything is put on the bus.
    pub fn flush_module(&mut self, index: usize) -> (r: Result<(), Error<T::Error>>)
        requires
            old(self).wf(),
        ensures
            final(self).wf(),
            final(self).buffers() == old(self).buffers(),
            index >= old(self).buffers().len() ==> {
                &&& r == Err::<(), Error<T::Error>>(Error::Config(ConfigError::InvalidModule))
                &&& final(self).hardware() == old(self).hardware()
            },
            index < old(self).buffers().len() ==> {
                &&& (r is Ok || r matches Err(Error::Transfer(_)))
                &&& carried_out(
                    module_plan(old(self).buffers(), index as int),
                    old(self).issued(),
                    final(self).issued(),
                    r is Ok,
                )
                &&& r is Ok ==> final(self).configs() == configs_flushed(
                    old(self).configs(),
                    Target::Module(index),
                )
                &&& r is Err ==> final(self).configs() == unknown_configs(
                    old(self).buffers().len(),
                )
            },
    {
        if index >= self.chain.len() {
            return Err(Error::Config(ConfigError::InvalidModule));
        }
        let r = self.send_rows(index);
        proof {
            if r is Ok {
                assert(self.configs() =~= configs_flushed(
                    old(self).configs(),
                    Target::Module(index),
                ));
            }
        }
        r
    }

    /// Switches every pixel of one module off and writes its eight rows to
    /// its chip at once.  A module index outside the chain is refused before
    /// anything changes.
    pub fn clear_and_flush(&mut self, index: usize) -> (r: Result<(), Error<T::Error>>)
        requires
            old(self).wf(),
        ensures
            final(self).wf(),
            index >= old(self).buffers().len() ==> {
                &&& r == Err::<(), Error<T::Error>>(Error::Config(ConfigError::InvalidModule))
                &&& final(self).buffers() == old(self).buffers()
                &&& final(self).hardware() == old(self).hardware()
            },
            index < old(self).buffers().len() ==> {
                &&& final(self).buffers() == old(self).buffers().update(
                    index as int,
                    blank_rows(),
                )
                &&& (r is Ok || r matches Err(Error::Transfer(_)))
                &&& carried_out(
                    module_plan(final(self).buffers(), index as int),
                    old(self).issued(),
                    final(self).issued(),
                    r is Ok,
                )
                &&& r is Ok ==> final(self).configs() == configs_flushed(
                    old(self).configs(),
                    Target::Module(index),
                )
                &&& r is Err ==> final(self).configs() == unknown_configs(
                    old(self).buffers().len(),
                )
            },
    {
        match self.chain.clear(index) {
            Ok(()) => self.flush_module(index),
            Err(e) => Err(Error::Config(e)),
        }
    }
}

} // verus!
