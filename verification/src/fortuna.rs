//! The wheel of fortune: at each session milestone a spin picks an effect,
//! the console commands that carry it out, and the words that go with it.
//!
//! Blessings stay modest; curses may summon hostiles, but no command touches
//! blocks or inventories.

use vstd::prelude::*;
use crate::text::{chars_of, replace, same};

verus! {

// ---------------------------------------------------------------------------
// Rolls
// ---------------------------------------------------------------------------

/// A source of pseudo-random numbers.
pub trait RollSource: Sized {
    /// The source can be rolled.
    spec fn ready(&self) -> bool;

    /// Rolling `pre` can give `r` and leave `post`.
    spec fn rolls(pre: Self, post: Self, r: u32) -> bool;

    fn roll(&mut self) -> (r: u32)
        requires
            old(self).ready(),
        ensures
            final(self).ready(),
            Self::rolls(*old(self), *final(self), r),
    ;
}

impl<F: FnMut() -> u32> RollSource for F {
    open spec fn ready(&self) -> bool {
        call_requires(*self, ())
    }

    open spec fn rolls(pre: Self, post: Self, r: u32) -> bool {
        call_ensures(pre, (), r)
    }

    fn roll(&mut self) -> (r: u32) {
        self()
    }
}

/// The SplitMix64 generator.
pub struct EntropyRolls {
    state: u64,
}

impl View for EntropyRolls {
    type V = u64;

    closed spec fn view(&self) -> u64 {
        self.state
    }
}

/// The generator's next state.
pub open spec fn advanced(state: u64) -> u64 {
    state.wrapping_add(0x9E37_79B9_7F4A_7C15u64)
}

/// What the generator makes of a state.
pub open spec fn mixed(state: u64) -> u64 {
    let a = (state ^ (state >> 30)).wrapping_mul(0xBF58_476D_1CE4_E5B9u64);
    let b = (a ^ (a >> 27)).wrapping_mul(0x94D0_49BB_1331_11EBu64);
    b ^ (b >> 31)
}

/// The generator in the arithmetic of the integers modulo 2 to the power 64:
/// the state moves on by the golden gamma, and the output mixes it with two
/// multiplications.
pub proof fn law_the_generator_counts_modulo(state: u64, x: u64, y: u64)
    requires
        x as int == ((state ^ (state >> 30)) as int * 0xBF58_476D_1CE4_E5B9)
            % 0x1_0000_0000_0000_0000,
        y as int == ((x ^ (x >> 27)) as int * 0x94D0_49BB_1331_11EB) % 0x1_0000_0000_0000_0000,
    ensures
        advanced(state) as int == (state as int + 0x9E37_79B9_7F4A_7C15)
            % 0x1_0000_0000_0000_0000,
        mixed(state) == y ^ (y >> 31),
{
}

/// `SystemTime::elapsed` of the Unix epoch, in nanoseconds; none if the clock
/// stands before it. Nothing is claimed of the reading.
#[verifier::external_body]
fn nanos_since_the_epoch() -> (r: Option<u128>) {
    std::time::UNIX_EPOCH.elapsed().ok().map(|d| d.as_nanos())
}

/// `RandomState::new`: hash keys that differ from one state to the next.
/// Nothing is claimed of them.
#[verifier::external_body]
fn random_keys() -> (s: std::collections::hash_map::RandomState) {
    std::collections::hash_map::RandomState::new()
}

/// `BuildHasher::hash_one` of a number under the given keys. Nothing is
/// claimed of the hash.
#[verifier::external_body]
fn keyed_hash(keys: &std::collections::hash_map::RandomState, n: u64) -> (h: u64) {
    std::hash::BuildHasher::hash_one(keys, n)
}

/// The part of a clock reading that goes into a seed: its low 64 bits, or
/// zero without a reading.
pub open spec fn low_nanos(reading: Option<u128>) -> u64 {
    match reading {
        Some(n) => (n % 0x1_0000_0000_0000_0000) as u64,
        None => 0,
    }
}

/// The part of a clock reading that goes into a seed.
pub fn clock_part(reading: Option<u128>) -> (r: u64)
    ensures
        r == low_nanos(reading),
{
    match reading {
        Some(n) => (n % 0x1_0000_0000_0000_0000) as u64,
        None => 0,
    }
}

/// Of a reading of the clock a seed takes what it leaves modulo 2 to the power
/// 64, and nothing of a missing one.
pub proof fn law_seeds_take_the_low_part(n: u128)
    ensures
        low_nanos(Some(n)) as int == n as int % 0x1_0000_0000_0000_0000,
        low_nanos(None) == 0,
{
}

/// `seed` comes of one reading of the clock and one set of random keys: the
/// low part of the reading, combined with its own hash under those keys.
pub closed spec fn sown(seed: u64) -> bool {
    exists|reading: Option<u128>, keys: std::collections::hash_map::RandomState, salt: u64|
        {
            &&& #[trigger] call_ensures(nanos_since_the_epoch, (), reading)
            &&& #[trigger] call_ensures(random_keys, (), keys)
            &&& #[trigger] call_ensures(keyed_hash, (&keys, low_nanos(reading)), salt)
            &&& seed == low_nanos(reading) ^ salt
        }
}

impl EntropyRolls {
    /// A generator seeded from the clock and a randomly keyed hash of it, so
    /// that two made in the same instant still diverge. The seed is up to the
    /// clock and to chance.
    pub fn new() -> (e: EntropyRolls)
        ensures
            sown(e@),
    {
        let reading = nanos_since_the_epoch();
        let nanos: u64 = clock_part(reading);
        let keys = random_keys();
        let salt: u64 = keyed_hash(&keys, nanos);
        assert(call_ensures(nanos_since_the_epoch, (), reading));
        assert(call_ensures(random_keys, (), keys));
        EntropyRolls::seeded(nanos, salt)
    }

    /// A generator with a known seed.
    pub fn seeded(nanos: u64, salt: u64) -> (e: EntropyRolls)
        ensures
            e@ == nanos ^ salt,
    {
        EntropyRolls { state: nanos ^ salt }
    }

    pub fn next_u64(&mut self) -> (r: u64)
        ensures
            final(self)@ == advanced(old(self)@),
            r == mixed(final(self)@),
    {
        self.state = self.state.wrapping_add(0x9E37_79B9_7F4A_7C15);
        let z: u64 = self.state;
        let a: u64 = (z ^ (z >> 30)).wrapping_mul(0xBF58_476D_1CE4_E5B9);
        let b: u64 = (a ^ (a >> 27)).wrapping_mul(0x94D0_49BB_1331_11EB);
        b ^ (b >> 31)
    }
}

impl Default for EntropyRolls {
    fn default() -> (e: EntropyRolls)
        ensures
            sown(e@),
    {
        EntropyRolls::new()
    }
}

impl RollSource for EntropyRolls {
    open spec fn ready(&self) -> bool {
        true
    }

    /// A roll is the upper half of the next output.
    open spec fn rolls(pre: Self, post: Self, r: u32) -> bool {
        post@ == advanced(pre@) && r == (mixed(post@) >> 32) as u32
    }

    fn roll(&mut self) -> (r: u32) {
        (self.next_u64() >> 32) as u32
    }
}

/// A roll of the generator moves its state on once and is the upper half of
/// what it makes of the new state.
pub proof fn law_a_roll_is_the_upper_half(pre: EntropyRolls, post: EntropyRolls, r: u32)
    ensures
        EntropyRolls::rolls(pre, post, r) <==> post@ == advanced(pre@) && r as int == mixed(
            post@,
        ) as int / 0x1_0000_0000,
{
    let x = mixed(post@);
    assert((x >> 32) as u32 == x / 0x1_0000_0000) by (bit_vector);
}

// ---------------------------------------------------------------------------
// The odds
// ---------------------------------------------------------------------------

#[derive(Debug, Clone, Copy, PartialEq, Eq, Structural)]
pub enum Category {
    Blessing,
    MinorCurse,
    MediumCurse,
    SevereCurse,
}

/// The weights of blessing, minor, medium and severe curse, out of 100, in
/// the given hour of a session. Up to the second hour they stay the same, and
/// from the eighth on.
pub open spec fn weights(hours: int) -> Seq<u32> {
    if hours <= 2 {
        seq![70u32, 20, 8, 2]
    } else if hours == 3 {
        seq![55u32, 25, 15, 5]
    } else if hours == 4 {
        seq![40u32, 30, 20, 10]
    } else if hours == 5 {
        seq![30u32, 30, 25, 15]
    } else if hours == 6 {
        seq![20u32, 30, 30, 20]
    } else if hours == 7 {
        seq![12u32, 28, 32, 28]
    } else {
        seq![5u32, 20, 35, 40]
    }
}

pub fn weights_for(hours: u32) -> (w: [u32; 4])
    ensures
        w@ == weights(hours as int),
{
    match hours {
        0 | 1 | 2 => [70, 20, 8, 2],
        3 => [55, 25, 15, 5],
        4 => [40, 30, 20, 10],
        5 => [30, 30, 25, 15],
        6 => [20, 30, 30, 20],
        7 => [12, 28, 32, 28],
        _ => [5, 20, 35, 40],
    }
}

/// The category that a roll lands on: the weights divide the range up to 100
/// from the left, and what is left over is a severe curse.
pub open spec fn category_of(w: Seq<u32>, roll: u32) -> Category {
    let r = (roll % 100) as int;
    if r < w[0] {
        Category::Blessing
    } else if r < w[0] + w[1] {
        Category::MinorCurse
    } else if r < w[0] + w[1] + w[2] {
        Category::MediumCurse
    } else {
        Category::SevereCurse
    }
}

pub fn category_for_roll(weights: [u32; 4], roll: u32) -> (c: Category)
    ensures
        c == category_of(weights@, roll),
{
    let r: u64 = (roll % 100) as u64;
    let blessing: u64 = weights[0] as u64;
    let minor: u64 = blessing + weights[1] as u64;
    let medium: u64 = minor + weights[2] as u64;
    if r < blessing {
        Category::Blessing
    } else if r < minor {
        Category::MinorCurse
    } else if r < medium {
        Category::MediumCurse
    } else {
        Category::SevereCurse
    }
}

/// In every hour the weights sum to 100; blessings are likely at first and
/// rare in the end; and from hour to hour neither the curses as a whole nor
/// the severe ones become less likely.
pub proof fn law_weights(hours: int, later: int)
    ensures
        weights(hours)[0] + weights(hours)[1] + weights(hours)[2] + weights(hours)[3] == 100,
        hours <= 2 ==> weights(hours)[0] >= 60,
        hours >= 8 ==> weights(hours)[0] <= 5,
        hours <= later ==> weights(hours)[1] + weights(hours)[2] + weights(hours)[3] <= weights(
            later,
        )[1] + weights(later)[2] + weights(later)[3],
        hours <= later ==> weights(hours)[3] <= weights(later)[3],
{
}

/// The odds of the second hour hold before it too, and those of the eighth
/// hold from then on.
pub proof fn law_weights_stay_at_the_ends(hours: int)
    ensures
        hours <= 2 ==> weights(hours) == weights(2),
        hours >= 8 ==> weights(hours) == weights(8),
        weights(hours).len() == 4,
{
}

/// Whatever the weights, they divide the hundred residues of a roll from the
/// left, and what they leave over is a severe curse.
pub proof fn law_weights_divide_the_rolls(w: Seq<u32>, roll: u32)
    requires
        w.len() == 4,
    ensures
        ({
            let r = roll as int % 100;
            let c = category_of(w, roll);
            &&& c == Category::Blessing <==> r < w[0]
            &&& c == Category::MinorCurse <==> w[0] <= r < w[0] + w[1]
            &&& c == Category::MediumCurse <==> w[0] + w[1] <= r < w[0] + w[1] + w[2]
            &&& c == Category::SevereCurse <==> w[0] + w[1] + w[2] <= r
        }),
{
}

/// Of the hundred residues of a roll, each category gets as many as its
/// weight says, in one block after the other.
pub proof fn law_odds(hours: int, roll: u32)
    ensures
        ({
            let w = weights(hours);
            let r = (roll % 100) as int;
            let c = category_of(w, roll);
            &&& c == Category::Blessing <==> 0 <= r < w[0]
            &&& c == Category::MinorCurse <==> w[0] <= r < w[0] + w[1]
            &&& c == Category::MediumCurse <==> w[0] + w[1] <= r < w[0] + w[1] + w[2]
            &&& c == Category::SevereCurse <==> 100 - w[3] <= r < 100
        }),
{
    law_weights(hours, hours);
}

// ---------------------------------------------------------------------------
// The effects
// ---------------------------------------------------------------------------

/// The effects: id, category, and what befalls the player, in words.
pub const EFFECTS: [(&'static str, Category, &'static str); 23] = [
    ("pan", Category::Blessing, "recibe tres panes recién horneados, cortesía de la fortuna"),
    ("carne", Category::Blessing, "recibe dos filetes de carne asada, banquete de improviso"),
    ("zanahoria_dorada", Category::Blessing, "recibe dos zanahorias doradas, manjar reservado a los favoritos del destino"),
    ("xp_menor", Category::Blessing, "es agraciado con dos niveles de experiencia"),
    ("xp_mayor", Category::Blessing, "es agraciado con cinco niveles de experiencia, generosidad de la rueda"),
    ("velocidad", Category::Blessing, "siente el viento a favor: velocidad por dos minutos"),
    ("prisa", Category::Blessing, "encuentra sus manos veloces como las de un herrero, por dos minutos"),
    ("regeneracion", Category::Blessing, "siente sanar sus heridas con una bendición pasajera"),
    ("antorchas", Category::Blessing, "recibe dieciséis antorchas para no andar a ciegas por la ínsula"),
    ("flechas", Category::Blessing, "recibe dieciséis flechas para su carcaj"),
    ("disco_de_oro", Category::Blessing, "gana el Disco Dorado de Ciren, tesoro sonoro del recetario de bendiciones de Matcha"),
    ("hambre", Category::MinorCurse, "siente morderle el hambre por medio minuto"),
    ("lentitud", Category::MinorCurse, "nota las piernas de plomo por medio minuto"),
    ("ceguera", Category::MinorCurse, "es cegado veinte segundos, castigo leve de la rueda"),
    ("zombi", Category::MinorCurse, "atrae a un zombi solitario que sale a su encuentro"),
    ("veneno", Category::MediumCurse, "es envenenado por quince segundos"),
    ("fatiga", Category::MediumCurse, "sufre fatiga en las manos por un minuto entero: picar se vuelve tormento"),
    ("cuadrilla", Category::MediumCurse, "es visitado por una cuadrilla de dos zombis y un esqueleto"),
    ("levitacion", Category::MediumCurse, "es alzado tres segundos por una levitación traviesa"),
    ("marchitez", Category::SevereCurse, "es marchitado diez segundos, maldición amarga"),
    ("rayo", Category::SevereCurse, "es alcanzado por un rayo caído del cielo mismo"),
    ("jauria", Category::SevereCurse, "es rodeado por una jauría de dos zombis, dos esqueletos y una araña"),
    ("ascension", Category::SevereCurse, "es lanzado a los cielos cinco segundos por la más severa de las levitaciones (unos 22 bloques de caída)"),
];

/// The console commands of the effects, in the order in which they run, with
/// `{player}` for the player's name.
pub const COMMANDS: [(&'static str, &'static str); 29] = [
    ("pan", "give {player} minecraft:bread 3"),
    ("carne", "give {player} minecraft:cooked_beef 2"),
    ("zanahoria_dorada", "give {player} minecraft:golden_carrot 2"),
    ("xp_menor", "xp add {player} 2 levels"),
    ("xp_mayor", "xp add {player} 5 levels"),
    ("velocidad", "effect give {player} minecraft:speed 120"),
    ("prisa", "effect give {player} minecraft:haste 120"),
    ("regeneracion", "effect give {player} minecraft:regeneration 30"),
    ("antorchas", "give {player} minecraft:torch 16"),
    ("flechas", "give {player} minecraft:arrow 16"),
    ("disco_de_oro", "give {player} minecraft:music_disc_cat[minecraft:jukebox_playable={song:\"main:golden\"}]"),
    ("hambre", "effect give {player} minecraft:hunger 30"),
    ("lentitud", "effect give {player} minecraft:slowness 30"),
    ("ceguera", "effect give {player} minecraft:blindness 20"),
    ("zombi", "execute at {player} run summon minecraft:zombie ~ ~ ~"),
    ("veneno", "effect give {player} minecraft:poison 15"),
    ("fatiga", "effect give {player} minecraft:mining_fatigue 60"),
    ("cuadrilla", "execute at {player} run summon minecraft:zombie ~ ~ ~"),
    ("cuadrilla", "execute at {player} run summon minecraft:zombie ~ ~ ~"),
    ("cuadrilla", "execute at {player} run summon minecraft:skeleton ~ ~ ~"),
    ("levitacion", "effect give {player} minecraft:levitation 3 0"),
    ("marchitez", "effect give {player} minecraft:wither 10 1"),
    ("rayo", "execute at {player} run summon minecraft:lightning_bolt ~ ~ ~"),
    ("jauria", "execute at {player} run summon minecraft:zombie ~ ~ ~"),
    ("jauria", "execute at {player} run summon minecraft:zombie ~ ~ ~"),
    ("jauria", "execute at {player} run summon minecraft:skeleton ~ ~ ~"),
    ("jauria", "execute at {player} run summon minecraft:skeleton ~ ~ ~"),
    ("jauria", "execute at {player} run summon minecraft:spider ~ ~ ~"),
    ("ascension", "effect give {player} minecraft:levitation 5 3"),
];

pub const BLESSING_POOL: [&'static str; 4] = [
    ":four_leaf_clover: ¡Gira la Rueda de la Fortuna y sonríe a **{player}**! {deed}. Bendición donde las llaman, según el propio recetario de Matcha.",
    ":four_leaf_clover: La Rueda de la Fortuna se detiene en buen signo: **{player}** {deed}. Hasta la fortuna tiene sus días generosos.",
    ":four_leaf_clover: ¡Fortuna favorece a los osados! **{player}** {deed}, bendición que ni el propio recetario de bendiciones de Matcha desdeñaría.",
    ":four_leaf_clover: La rueda gira y **{player}** {deed}. Que Dulcinea tome nota: hoy el destino fue generoso.",
];

pub const MINOR_CURSE_POOL: [&'static str; 4] = [
    ":cloud: La Rueda de la Fortuna tuerce el gesto: **{player}** {deed}. Nada que un buen caldo no cure.",
    ":cloud: Pequeño tropiezo del destino: **{player}** {deed}. La rueda también gasta bromas leves.",
    ":cloud: La fortuna, traviesa, dispone que **{player}** {deed}. Cosa de nada, ya lo dijo el refrán.",
    ":cloud: Gira la rueda y roza apenas: **{player}** {deed}. Molestia menor, hazaña intacta.",
];

pub const MEDIUM_CURSE_POOL: [&'static str; 4] = [
    ":warning: La Rueda de la Fortuna aprieta más fuerte: **{player}** {deed}. Empieza la cosa a doler de veras.",
    ":warning: El destino cobra su peaje: **{player}** {deed}. Sancho recomendaría prudencia a partir de ahora.",
    ":warning: La rueda gira torcida: **{player}** {deed}. Ya no es broma, vuestra merced.",
    ":warning: Golpe de mediana fortuna: **{player}** {deed}. La ínsula toma nota del castigo.",
];

pub const SEVERE_CURSE_POOL: [&'static str; 4] = [
    ":skull: ¡La Rueda de la Fortuna se cobra su tributo más cruel! **{player}** {deed}. Que no se diga que la fortuna no avisa.",
    ":skull: La rueda ha hablado, y sin piedad: **{player}** {deed}. Ni el propio cronista puede mirar sin estremecerse.",
    ":skull: Tiembla la ínsula: **{player}** {deed}. La severa fortuna no conoce de méritos, solo de suerte.",
    ":skull: La rueda gira hacia el abismo: **{player}** {deed}. Que sirva de escarmiento a los demás hidalgos.",
];

/// What is said in the game.
pub const GAME_MSG_TEMPLATE: &'static str = "La Rueda de la Fortuna gira para {player}: {deed}.";

/// The lines to announce a spin of the given category with.
pub open spec fn pool(category: Category) -> Seq<&'static str> {
    match category {
        Category::Blessing => BLESSING_POOL@,
        Category::MinorCurse => MINOR_CURSE_POOL@,
        Category::MediumCurse => MEDIUM_CURSE_POOL@,
        Category::SevereCurse => SEVERE_CURSE_POOL@,
    }
}

pub fn pool_for(category: Category) -> (p: [&'static str; 4])
    ensures
        p@ == pool(category),
{
    match category {
        Category::Blessing => BLESSING_POOL,
        Category::MinorCurse => MINOR_CURSE_POOL,
        Category::MediumCurse => MEDIUM_CURSE_POOL,
        Category::SevereCurse => SEVERE_CURSE_POOL,
    }
}

/// The positions in the table of the effects of one category, from the first
/// `n` entries.
pub open spec fn members(category: Category, n: int) -> Seq<int>
    decreases n,
{
    if n <= 0 {
        Seq::empty()
    } else if EFFECTS@[n - 1].1 == category {
        members(category, n - 1).push(n - 1)
    } else {
        members(category, n - 1)
    }
}

/// Every category has effects.
pub proof fn law_every_category_has_effects(category: Category)
    ensures
        0 < members(category, EFFECTS@.len() as int).len() <= EFFECTS@.len(),
        forall|k: int|
            0 <= k < members(category, EFFECTS@.len() as int).len() ==> {
                let i = #[trigger] members(category, EFFECTS@.len() as int)[k];
                0 <= i < EFFECTS@.len() && EFFECTS@[i].1 == category
            },
{
    let n = EFFECTS@.len() as int;
    lemma_members(category, n);
    let i: int = match category {
        Category::Blessing => 0,
        Category::MinorCurse => 11,
        Category::MediumCurse => 15,
        Category::SevereCurse => 19,
    };
    assert(EFFECTS@[i].1 == category);
    lemma_member(category, n, i);
}

proof fn lemma_members(category: Category, n: int)
    requires
        0 <= n <= EFFECTS@.len(),
    ensures
        members(category, n).len() <= n,
        forall|k: int|
            0 <= k < members(category, n).len() ==> {
                let i = #[trigger] members(category, n)[k];
                0 <= i < n && EFFECTS@[i].1 == category
            },
    decreases n,
{
    if n > 0 {
        lemma_members(category, n - 1);
    }
}

proof fn lemma_member(category: Category, n: int, i: int)
    requires
        0 <= i < n,
        EFFECTS@[i].1 == category,
    ensures
        members(category, n).len() > 0,
    decreases n,
{
    if n - 1 > i {
        lemma_member(category, n - 1, i);
    }
}

/// The effect that a roll picks in a category.
pub open spec fn picked(category: Category, roll: u32) -> int {
    let m = members(category, EFFECTS@.len() as int);
    m[roll as int % m.len() as int]
}

/// The entry of the table with the given id stands at `i`.
pub open spec fn named(id: Seq<char>, i: int) -> bool {
    0 <= i < EFFECTS@.len() && EFFECTS@[i].0@ == id
}

// ---------------------------------------------------------------------------
// Spins
// ---------------------------------------------------------------------------

/// A completed spin: the effect, the console commands to run, in order, and
/// what is said on Discord and in the game.
#[derive(Debug, Clone, PartialEq, Eq)]
pub struct Spin {
    pub effect_id: &'static str,
    pub category: Category,
    pub commands: Vec<String>,
    pub discord_msg: String,
    pub game_msg: String,
}

#[verifier::ext_equal]
pub struct SpinView {
    pub effect_id: Seq<char>,
    pub category: Category,
    pub commands: Seq<Seq<char>>,
    pub discord_msg: Seq<char>,
    pub game_msg: Seq<char>,
}

impl View for Spin {
    type V = SpinView;

    open spec fn view(&self) -> SpinView {
        SpinView {
            effect_id: self.effect_id@,
            category: self.category,
            commands: crate::text::views(self.commands@),
            discord_msg: self.discord_msg@,
            game_msg: self.game_msg@,
        }
    }
}

/// A command template with the player's name put in.
pub open spec fn aimed(template: Seq<char>, player: Seq<char>) -> Seq<char> {
    crate::text::replace_all(template, "{player}"@, player)
}

/// A line with the player's name and then the deed put in.
pub open spec fn told(line: Seq<char>, player: Seq<char>, deed: Seq<char>) -> Seq<char> {
    crate::fill::filled(line, "{player}"@, player, "{deed}"@, deed)
}

/// The commands of the effect with the given id, from the first `n` entries
/// of the table, aimed at the player.
pub open spec fn orders(id: Seq<char>, player: Seq<char>, n: int) -> Seq<Seq<char>>
    decreases n,
{
    if n <= 0 {
        Seq::empty()
    } else if COMMANDS@[n - 1].0@ == id {
        orders(id, player, n - 1).push(aimed(COMMANDS@[n - 1].1@, player))
    } else {
        orders(id, player, n - 1)
    }
}

/// The spin that lands on the effect at position `i`, announced with the line
/// that the roll picks.
pub open spec fn spun(player: Seq<char>, i: int, variant_roll: u32) -> SpinView {
    let (id, category, deed) = EFFECTS@[i];
    SpinView {
        effect_id: id@,
        category,
        commands: orders(id@, player, COMMANDS@.len() as int),
        discord_msg: told(pool(category)[variant_roll as int % 4]@, player, deed@),
        game_msg: told(GAME_MSG_TEMPLATE@, player, deed@),
    }
}

/// The spin that three rolls give: the first picks the category by the
/// weights of the hour, the second the effect in it, the third the line.
pub open spec fn outcome(player: Seq<char>, hours: u32, a: u32, b: u32, c: u32) -> SpinView {
    spun(player, picked(category_of(weights(hours as int), a), b), c)
}

fn tell(line: &str, player: &str, deed: &str) -> (r: String)
    ensures
        r@ == told(line@, player@, deed@),
{
    proof {
        reveal_strlit("{player}");
        reveal_strlit("{deed}");
    }
    replace(replace(line, "{player}", player).as_str(), "{deed}", deed)
}

fn orders_for(id: &str, player: &str) -> (r: Vec<String>)
    ensures
        crate::text::views(r@) == orders(id@, player@, COMMANDS@.len() as int),
{
    proof {
        reveal_strlit("{player}");
    }
    let table = COMMANDS;
    let mut r: Vec<String> = Vec::new();
    assert(crate::text::views(r@) == orders(id@, player@, 0));
    for k in 0..table.len()
        invariant
            table == COMMANDS,
            "{player}"@.len() > 0,
            crate::text::views(r@) == orders(id@, player@, k as int),
    {
        let (owner, template) = table[k];
        if same(owner, id) {
            let order = replace(template, "{player}", player);
            let ghost before = r@;
            r.push(order);
            assert(crate::text::views(r@) == crate::text::views(before).push(order@));
        }
        assert(crate::text::views(r@) == orders(id@, player@, k + 1));
    }
    r
}

pub fn build_spin(player: &str, effect: usize, variant_roll: u32) -> (s: Spin)
    requires
        effect < EFFECTS@.len(),
    ensures
        s@ == spun(player@, effect as int, variant_roll),
{
    let (effect_id, category, deed) = EFFECTS[effect];
    let lines = pool_for(category);
    let line = lines[(variant_roll % 4) as usize];
    Spin {
        effect_id,
        category,
        commands: orders_for(effect_id, player),
        discord_msg: tell(line, player, deed),
        game_msg: tell(GAME_MSG_TEMPLATE, player, deed),
    }
}

/// A user name as the game client accepts it: 1 to 16 ASCII letters, digits
/// and underscores. Selectors and spaces are not among them.
pub fn valid_player_name(name: &str) -> (r: bool)
    ensures
        r == crate::patterns::username(name@),
{
    let cs = chars_of(name);
    if cs.len() < 1 || cs.len() > 16 {
        return false;
    }
    for i in 0..cs.len()
        invariant
            cs@ == name@,
            forall|j: int|
                0 <= j < i ==> (crate::text::ascii_alphanumeric(#[trigger] cs@[j]) || cs@[j] == '_'),
    {
        let c = cs[i];
        if !(('0' <= c && c <= '9') || ('A' <= c && c <= 'Z') || ('a' <= c && c <= 'z') || c == '_') {
            assert(!crate::text::ascii_alphanumeric(name@[i as int]) && name@[i as int] != '_');
            return false;
        }
    }
    true
}

/// The spin for `player` in the given hour of the session that the three
/// rolls give.
pub fn spin_with(player: &str, hours: u32, a: u32, b: u32, c: u32) -> (s: Spin)
    ensures
        s@ == outcome(player@, hours, a, b, c),
{
    let category = category_for_roll(weights_for(hours), a);
    let table = EFFECTS;
    let mut candidates: Vec<usize> = Vec::new();
    assert(candidates@.map_values(|i: usize| i as int) == members(category, 0));
    for k in 0..table.len()
        invariant
            table == EFFECTS,
            candidates@.map_values(|i: usize| i as int) == members(category, k as int),
            candidates@.len() <= k,
    {
        if table[k].1 == category {
            let ghost before = candidates@;
            candidates.push(k);
            assert(candidates@.map_values(|i: usize| i as int) == before.map_values(
                |i: usize| i as int,
            ).push(k as int));
        }
        assert(candidates@.map_values(|i: usize| i as int) == members(category, k + 1));
    }
    proof {
        law_every_category_has_effects(category);
        assert(candidates@.map_values(|i: usize| i as int).len() == candidates@.len());
    }
    let k: usize = (b % (candidates.len() as u32)) as usize;
    let effect: usize = candidates[k];
    assert(effect == candidates@.map_values(|i: usize| i as int)[k as int]);
    build_spin(player, effect, c)
}

/// Spins the wheel for `player` in the given hour of the session, on three
/// rolls. The name is put into the commands as it is: callers check it with
/// [`valid_player_name`] first.
pub fn spin<R: RollSource>(player: &str, hours: u32, rng: &mut R) -> (s: Spin)
    requires
        old(rng).ready(),
    ensures
        final(rng).ready(),
        exists|m: R, n: R, a: u32, b: u32, c: u32|
            #![trigger R::rolls(*old(rng), m, a), R::rolls(m, n, b), R::rolls(n, *final(rng), c)]
            R::rolls(*old(rng), m, a) && R::rolls(m, n, b) && R::rolls(n, *final(rng), c) && s@
                == outcome(player@, hours, a, b, c),
{
    let a: u32 = rng.roll();
    let ghost m = *rng;
    let b: u32 = rng.roll();
    let ghost n = *rng;
    let c: u32 = rng.roll();
    assert(R::rolls(*old(rng), m, a) && R::rolls(m, n, b) && R::rolls(n, *rng, c));
    spin_with(player, hours, a, b, c)
}

/// The position of the effect with the given id.
pub fn effect_named(effect_id: &str) -> (r: Option<usize>)
    ensures
        match r {
            Some(i) => named(effect_id@, i as int),
            None => forall|i: int| !named(effect_id@, i),
        },
{
    let table = EFFECTS;
    for k in 0..table.len()
        invariant
            table == EFFECTS,
            forall|i: int| 0 <= i < k ==> !named(effect_id@, i),
    {
        if same(table[k].0, effect_id) {
            return Some(k);
        }
    }
    None
}

/// The spin that lands on the effect with the given id, on one roll for the
/// line that announces it; none, and no roll, if there is no such effect.
pub fn spin_forced<R: RollSource>(player: &str, effect_id: &str, rng: &mut R) -> (r: Option<Spin>)
    requires
        old(rng).ready(),
    ensures
        final(rng).ready(),
        match r {
            Some(s) => exists|i: int, c: u32|
                #![trigger spun(player@, i, c)]
                named(effect_id@, i) && R::rolls(*old(rng), *final(rng), c) && s@ == spun(
                    player@,
                    i,
                    c,
                ),
            None => *final(rng) == *old(rng) && forall|i: int| !named(effect_id@, i),
        },
{
    match effect_named(effect_id) {
        Some(i) => {
            let c: u32 = rng.roll();
            let s = build_spin(player, i, c);
            assert(s@ == spun(player@, i as int, c));
            Some(s)
        },
        None => None,
    }
}

// ---------------------------------------------------------------------------
// Laws of the table
// ---------------------------------------------------------------------------

/// What tells the ids of the table apart: the length, two letters at the
/// front and one in the middle.
spec fn id_mark(id: Seq<char>) -> (nat, char, char, char) {
    (id.len(), id[0], id[1], id[id.len() as int / 2])
}

/// The position in the table of an id with the given mark.
spec fn position_of_mark(mark: (nat, char, char, char)) -> int {
    if mark == (3nat, 'p', 'a', 'a') {
        0
    } else if mark == (5nat, 'c', 'a', 'r') {
        1
    } else if mark == (16nat, 'z', 'a', 'a') {
        2
    } else if mark == (8nat, 'x', 'p', 'e') {
        3
    } else if mark == (8nat, 'x', 'p', 'a') {
        4
    } else if mark == (9nat, 'v', 'e', 'c') {
        5
    } else if mark == (5nat, 'p', 'r', 'i') {
        6
    } else if mark == (12nat, 'r', 'e', 'r') {
        7
    } else if mark == (9nat, 'a', 'n', 'r') {
        8
    } else if mark == (7nat, 'f', 'l', 'c') {
        9
    } else if mark == (12nat, 'd', 'i', 'd') {
        10
    } else if mark == (6nat, 'h', 'a', 'b') {
        11
    } else if mark == (8nat, 'l', 'e', 'i') {
        12
    } else if mark == (7nat, 'c', 'e', 'u') {
        13
    } else if mark == (5nat, 'z', 'o', 'm') {
        14
    } else if mark == (6nat, 'v', 'e', 'e') {
        15
    } else if mark == (6nat, 'f', 'a', 'i') {
        16
    } else if mark == (9nat, 'c', 'u', 'r') {
        17
    } else if mark == (10nat, 'l', 'e', 'a') {
        18
    } else if mark == (9nat, 'm', 'a', 'h') {
        19
    } else if mark == (4nat, 'r', 'a', 'y') {
        20
    } else if mark == (6nat, 'j', 'a', 'r') {
        21
    } else if mark == (9nat, 'a', 's', 'n') {
        22
    } else {
        -1
    }
}

#[verifier::spinoff_prover]
proof fn lemma_id_mark(i: int)
    requires
        0 <= i < EFFECTS@.len(),
    ensures
        position_of_mark(id_mark(EFFECTS@[i].0@)) == i,
{
    if i == 0 {
        reveal_strlit("pan");
    }
    if i == 1 {
        reveal_strlit("carne");
    }
    if i == 2 {
        reveal_strlit("zanahoria_dorada");
    }
    if i == 3 {
        reveal_strlit("xp_menor");
    }
    if i == 4 {
        reveal_strlit("xp_mayor");
    }
    if i == 5 {
        reveal_strlit("velocidad");
    }
    if i == 6 {
        reveal_strlit("prisa");
    }
    if i == 7 {
        reveal_strlit("regeneracion");
    }
    if i == 8 {
        reveal_strlit("antorchas");
    }
    if i == 9 {
        reveal_strlit("flechas");
    }
    if i == 10 {
        reveal_strlit("disco_de_oro");
    }
    if i == 11 {
        reveal_strlit("hambre");
    }
    if i == 12 {
        reveal_strlit("lentitud");
    }
    if i == 13 {
        reveal_strlit("ceguera");
    }
    if i == 14 {
        reveal_strlit("zombi");
    }
    if i == 15 {
        reveal_strlit("veneno");
    }
    if i == 16 {
        reveal_strlit("fatiga");
    }
    if i == 17 {
        reveal_strlit("cuadrilla");
    }
    if i == 18 {
        reveal_strlit("levitacion");
    }
    if i == 19 {
        reveal_strlit("marchitez");
    }
    if i == 20 {
        reveal_strlit("rayo");
    }
    if i == 21 {
        reveal_strlit("jauria");
    }
    if i == 22 {
        reveal_strlit("ascension");
    }
}

/// No two effects have the same id, so that every effect can be forced by
/// its own.
pub proof fn law_effect_ids_are_unique(i: int, j: int)
    requires
        0 <= i < EFFECTS@.len(),
        named(EFFECTS@[i].0@, j),
    ensures
        i == j,
{
    lemma_id_mark(i);
    lemma_id_mark(j);
}

/// What the effect of each id is: a blessing or a curse, and what it does to the
/// player.
#[verifier::spinoff_prover]
pub proof fn law_what_each_effect_is(i: int)
    ensures
        named("pan"@, i) ==> EFFECTS@[i].1 == Category::Blessing && EFFECTS@[i].2@
            == "recibe tres panes recién horneados, cortesía de la fortuna"@,
        named("carne"@, i) ==> EFFECTS@[i].1 == Category::Blessing && EFFECTS@[i].2@
            == "recibe dos filetes de carne asada, banquete de improviso"@,
        named("zanahoria_dorada"@, i) ==> EFFECTS@[i].1 == Category::Blessing && EFFECTS@[i].2@
            == "recibe dos zanahorias doradas, manjar reservado a los favoritos del destino"@,
        named("xp_menor"@, i) ==> EFFECTS@[i].1 == Category::Blessing && EFFECTS@[i].2@
            == "es agraciado con dos niveles de experiencia"@,
        named("xp_mayor"@, i) ==> EFFECTS@[i].1 == Category::Blessing && EFFECTS@[i].2@
            == "es agraciado con cinco niveles de experiencia, generosidad de la rueda"@,
        named("velocidad"@, i) ==> EFFECTS@[i].1 == Category::Blessing && EFFECTS@[i].2@
            == "siente el viento a favor: velocidad por dos minutos"@,
        named("prisa"@, i) ==> EFFECTS@[i].1 == Category::Blessing && EFFECTS@[i].2@
            == "encuentra sus manos veloces como las de un herrero, por dos minutos"@,
        named("regeneracion"@, i) ==> EFFECTS@[i].1 == Category::Blessing && EFFECTS@[i].2@
            == "siente sanar sus heridas con una bendición pasajera"@,
        named("antorchas"@, i) ==> EFFECTS@[i].1 == Category::Blessing && EFFECTS@[i].2@
            == "recibe dieciséis antorchas para no andar a ciegas por la ínsula"@,
        named("flechas"@, i) ==> EFFECTS@[i].1 == Category::Blessing && EFFECTS@[i].2@
            == "recibe dieciséis flechas para su carcaj"@,
        named("disco_de_oro"@, i) ==> EFFECTS@[i].1 == Category::Blessing && EFFECTS@[i].2@
            == "gana el Disco Dorado de Ciren, tesoro sonoro del recetario de bendiciones de Matcha"@,
        named("hambre"@, i) ==> EFFECTS@[i].1 == Category::MinorCurse && EFFECTS@[i].2@
            == "siente morderle el hambre por medio minuto"@,
        named("lentitud"@, i) ==> EFFECTS@[i].1 == Category::MinorCurse && EFFECTS@[i].2@
            == "nota las piernas de plomo por medio minuto"@,
        named("ceguera"@, i) ==> EFFECTS@[i].1 == Category::MinorCurse && EFFECTS@[i].2@
            == "es cegado veinte segundos, castigo leve de la rueda"@,
        named("zombi"@, i) ==> EFFECTS@[i].1 == Category::MinorCurse && EFFECTS@[i].2@
            == "atrae a un zombi solitario que sale a su encuentro"@,
        named("veneno"@, i) ==> EFFECTS@[i].1 == Category::MediumCurse && EFFECTS@[i].2@
            == "es envenenado por quince segundos"@,
        named("fatiga"@, i) ==> EFFECTS@[i].1 == Category::MediumCurse && EFFECTS@[i].2@
            == "sufre fatiga en las manos por un minuto entero: picar se vuelve tormento"@,
        named("cuadrilla"@, i) ==> EFFECTS@[i].1 == Category::MediumCurse && EFFECTS@[i].2@
            == "es visitado por una cuadrilla de dos zombis y un esqueleto"@,
        named("levitacion"@, i) ==> EFFECTS@[i].1 == Category::MediumCurse && EFFECTS@[i].2@
            == "es alzado tres segundos por una levitación traviesa"@,
        named("marchitez"@, i) ==> EFFECTS@[i].1 == Category::SevereCurse && EFFECTS@[i].2@
            == "es marchitado diez segundos, maldición amarga"@,
        named("rayo"@, i) ==> EFFECTS@[i].1 == Category::SevereCurse && EFFECTS@[i].2@
            == "es alcanzado por un rayo caído del cielo mismo"@,
        named("jauria"@, i) ==> EFFECTS@[i].1 == Category::SevereCurse && EFFECTS@[i].2@
            == "es rodeado por una jauría de dos zombis, dos esqueletos y una araña"@,
        named("ascension"@, i) ==> EFFECTS@[i].1 == Category::SevereCurse && EFFECTS@[i].2@
            == "es lanzado a los cielos cinco segundos por la más severa de las levitaciones (unos 22 bloques de caída)"@,
{
    if named("pan"@, i) {
        law_effect_ids_are_unique(0, i);
    }
    if named("carne"@, i) {
        law_effect_ids_are_unique(1, i);
    }
    if named("zanahoria_dorada"@, i) {
        law_effect_ids_are_unique(2, i);
    }
    if named("xp_menor"@, i) {
        law_effect_ids_are_unique(3, i);
    }
    if named("xp_mayor"@, i) {
        law_effect_ids_are_unique(4, i);
    }
    if named("velocidad"@, i) {
        law_effect_ids_are_unique(5, i);
    }
    if named("prisa"@, i) {
        law_effect_ids_are_unique(6, i);
    }
    if named("regeneracion"@, i) {
        law_effect_ids_are_unique(7, i);
    }
    if named("antorchas"@, i) {
        law_effect_ids_are_unique(8, i);
    }
    if named("flechas"@, i) {
        law_effect_ids_are_unique(9, i);
    }
    if named("disco_de_oro"@, i) {
        law_effect_ids_are_unique(10, i);
    }
    if named("hambre"@, i) {
        law_effect_ids_are_unique(11, i);
    }
    if named("lentitud"@, i) {
        law_effect_ids_are_unique(12, i);
    }
    if named("ceguera"@, i) {
        law_effect_ids_are_unique(13, i);
    }
    if named("zombi"@, i) {
        law_effect_ids_are_unique(14, i);
    }
    if named("veneno"@, i) {
        law_effect_ids_are_unique(15, i);
    }
    if named("fatiga"@, i) {
        law_effect_ids_are_unique(16, i);
    }
    if named("cuadrilla"@, i) {
        law_effect_ids_are_unique(17, i);
    }
    if named("levitacion"@, i) {
        law_effect_ids_are_unique(18, i);
    }
    if named("marchitez"@, i) {
        law_effect_ids_are_unique(19, i);
    }
    if named("rayo"@, i) {
        law_effect_ids_are_unique(20, i);
    }
    if named("jauria"@, i) {
        law_effect_ids_are_unique(21, i);
    }
    if named("ascension"@, i) {
        law_effect_ids_are_unique(22, i);
    }
}

/// An id is known exactly if an entry of the table has it, letter for letter.
pub proof fn law_only_the_table_names_effects(id: Seq<char>, i: int)
    ensures
        0 <= i < 23 ==> (named(id, i) <==> EFFECTS@[i].0@ == id),
        named(id, i) ==> 0 <= i < 23,
{
}

/// How every console command begins.
pub open spec fn verbs() -> Seq<Seq<char>> {
    seq!["give "@, "effect give "@, "xp add "@, "execute at "@]
}

/// `order` begins with a known verb and the player's name, and no `{player}`
/// is left in it.
pub open spec fn proper_order(order: Seq<char>, player: Seq<char>) -> bool {
    &&& exists|k: int|
        0 <= k < verbs().len() && crate::text::occurs_at(order, #[trigger] verbs()[k] + player, 0)
    &&& !crate::text::contains(order, "{player}"@)
}

/// What no command may hold.
pub open spec fn forbidden() -> Seq<Seq<char>> {
    seq!["tnt"@, "creeper"@, "setblock"@, "fill"@, "clear"@, "kill"@]
}

/// An ASCII letter in lower case; any other character as it is.
pub open spec fn lower_char(c: char) -> char {
    if 'A' <= c <= 'Z' {
        (c as u32 + 0x20) as char
    } else {
        c
    }
}

/// The text with its ASCII letters in lower case.
pub open spec fn lower(s: Seq<char>) -> Seq<char> {
    s.map_values(|c: char| lower_char(c))
}

/// No forbidden word stands in the text, whatever the case of its letters.
pub open spec fn harmless(s: Seq<char>) -> bool {
    forall|k: int|
        0 <= k < forbidden().len() ==> !crate::text::contains(lower(s), #[trigger] forbidden()[k])
}

/// A forbidden word may begin with these letters.
spec fn begins_harm(a: char, b: char, c: char) -> bool {
    ||| a == 't' && b == 'n' && c == 't'
    ||| a == 'c' && b == 'r' && c == 'e'
    ||| a == 's' && b == 'e' && c == 't'
    ||| a == 'f' && b == 'i' && c == 'l'
    ||| a == 'c' && b == 'l' && c == 'e'
    ||| a == 'k' && b == 'i' && c == 'l'
}

/// No capital letter stands in the text, and no beginning of a forbidden word.
spec fn clean(t: Seq<char>) -> bool {
    &&& forall|j: int| 0 <= j < t.len() ==> !('A' <= #[trigger] t[j] <= 'Z')
    &&& forall|j: int|
        0 <= j < t.len() - 2 ==> !begins_harm(#[trigger] t[j], t[j + 1], t[j + 2])
}

/// A template of a command: a verb, `{player}`, and nothing or a space and
/// more, all of it clean and without another `{p`.
spec fn clean_order(t: Seq<char>, k: int) -> bool {
    &&& 0 <= k < verbs().len()
    &&& crate::text::occurs_at(t, verbs()[k] + "{player}"@, 0)
    &&& t.len() > verbs()[k].len() + 8 ==> t[verbs()[k].len() as int + 8] == ' '
    &&& forall|j: int|
        verbs()[k].len() + 8 <= j < t.len() && #[trigger] t[j] == '{' ==> j + 1 < t.len() && t[j
            + 1] != 'p'
    &&& clean(t)
}

#[verifier::spinoff_prover]
proof fn lemma_words(k: int)
    requires
        0 <= k < forbidden().len(),
    ensures
        forbidden()[k].len() >= 3,
        begins_harm(forbidden()[k][0], forbidden()[k][1], forbidden()[k][2]),
        !forbidden()[k].contains(' '),
{
    reveal_strlit("tnt");
    reveal_strlit("creeper");
    reveal_strlit("setblock");
    reveal_strlit("fill");
    reveal_strlit("clear");
    reveal_strlit("kill");
}

#[verifier::spinoff_prover]
proof fn lemma_verbs(k: int)
    requires
        0 <= k < verbs().len(),
    ensures
        verbs()[k].len() > 0,
        verbs()[k].last() == ' ',
        "{player}"@.len() == 8,
        "{player}"@[0] == '{',
        forall|j: int| 0 <= j < verbs()[k].len() ==> #[trigger] verbs()[k][j] != '{',
{
    reveal_strlit("give ");
    reveal_strlit("effect give ");
    reveal_strlit("xp add ");
    reveal_strlit("execute at ");
    reveal_strlit("{player}");
}

/// What makes a template of a command, letter by letter.
proof fn lemma_clean_order(t: Seq<char>, k: int)
    requires
        0 <= k < verbs().len(),
        verbs()[k].len() + 8 <= t.len(),
        "{player}"@.len() == 8,
        forall|j: int|
            0 <= j < verbs()[k].len() + 8 ==> #[trigger] t[j] == (verbs()[k] + "{player}"@)[j],
        t.len() > verbs()[k].len() + 8 ==> t[verbs()[k].len() as int + 8] == ' ',
        forall|j: int|
            verbs()[k].len() + 8 <= j < t.len() && #[trigger] t[j] == '{' ==> j + 1 < t.len()
                && t[j + 1] != 'p',
        clean(t),
    ensures
        clean_order(t, k),
{
    let front = verbs()[k] + "{player}"@;
    assert(t.subrange(0, front.len() as int) == front);
}

/// Every template of the table is clean; `k` is the verb that it begins with.
#[verifier::spinoff_prover]
proof fn lemma_table_is_clean(i: int) -> (k: int)
    requires
        0 <= i < COMMANDS@.len(),
    ensures
        clean_order(COMMANDS@[i].1@, k),
{
    reveal_strlit("{player}");
    reveal_strlit("give ");
    reveal_strlit("effect give ");
    reveal_strlit("xp add ");
    reveal_strlit("execute at ");
    if i == 0 {
        reveal_strlit("give {player} minecraft:bread 3");
        lemma_clean_order(COMMANDS@[i].1@, 0);
        0
    } else if i == 1 {
        reveal_strlit("give {player} minecraft:cooked_beef 2");
        lemma_clean_order(COMMANDS@[i].1@, 0);
        0
    } else if i == 2 {
        reveal_strlit("give {player} minecraft:golden_carrot 2");
        lemma_clean_order(COMMANDS@[i].1@, 0);
        0
    } else if i == 3 {
        reveal_strlit("xp add {player} 2 levels");
        lemma_clean_order(COMMANDS@[i].1@, 2);
        2
    } else if i == 4 {
        reveal_strlit("xp add {player} 5 levels");
        lemma_clean_order(COMMANDS@[i].1@, 2);
        2
    } else if i == 5 {
        reveal_strlit("effect give {player} minecraft:speed 120");
        lemma_clean_order(COMMANDS@[i].1@, 1);
        1
    } else if i == 6 {
        reveal_strlit("effect give {player} minecraft:haste 120");
        lemma_clean_order(COMMANDS@[i].1@, 1);
        1
    } else if i == 7 {
        reveal_strlit("effect give {player} minecraft:regeneration 30");
        lemma_clean_order(COMMANDS@[i].1@, 1);
        1
    } else if i == 8 {
        reveal_strlit("give {player} minecraft:torch 16");
        lemma_clean_order(COMMANDS@[i].1@, 0);
        0
    } else if i == 9 {
        reveal_strlit("give {player} minecraft:arrow 16");
        lemma_clean_order(COMMANDS@[i].1@, 0);
        0
    } else if i == 10 {
        reveal_strlit("give {player} minecraft:music_disc_cat[minecraft:jukebox_playable={song:\"main:golden\"}]");
        lemma_clean_order(COMMANDS@[i].1@, 0);
        0
    } else if i == 11 {
        reveal_strlit("effect give {player} minecraft:hunger 30");
        lemma_clean_order(COMMANDS@[i].1@, 1);
        1
    } else if i == 12 {
        reveal_strlit("effect give {player} minecraft:slowness 30");
        lemma_clean_order(COMMANDS@[i].1@, 1);
        1
    } else if i == 13 {
        reveal_strlit("effect give {player} minecraft:blindness 20");
        lemma_clean_order(COMMANDS@[i].1@, 1);
        1
    } else if i == 14 {
        reveal_strlit("execute at {player} run summon minecraft:zombie ~ ~ ~");
        lemma_clean_order(COMMANDS@[i].1@, 3);
        3
    } else if i == 15 {
        reveal_strlit("effect give {player} minecraft:poison 15");
        lemma_clean_order(COMMANDS@[i].1@, 1);
        1
    } else if i == 16 {
        reveal_strlit("effect give {player} minecraft:mining_fatigue 60");
        lemma_clean_order(COMMANDS@[i].1@, 1);
        1
    } else if i == 17 {
        reveal_strlit("execute at {player} run summon minecraft:zombie ~ ~ ~");
        lemma_clean_order(COMMANDS@[i].1@, 3);
        3
    } else if i == 18 {
        reveal_strlit("execute at {player} run summon minecraft:zombie ~ ~ ~");
        lemma_clean_order(COMMANDS@[i].1@, 3);
        3
    } else if i == 19 {
        reveal_strlit("execute at {player} run summon minecraft:skeleton ~ ~ ~");
        lemma_clean_order(COMMANDS@[i].1@, 3);
        3
    } else if i == 20 {
        reveal_strlit("effect give {player} minecraft:levitation 3 0");
        lemma_clean_order(COMMANDS@[i].1@, 1);
        1
    } else if i == 21 {
        reveal_strlit("effect give {player} minecraft:wither 10 1");
        lemma_clean_order(COMMANDS@[i].1@, 1);
        1
    } else if i == 22 {
        reveal_strlit("execute at {player} run summon minecraft:lightning_bolt ~ ~ ~");
        lemma_clean_order(COMMANDS@[i].1@, 3);
        3
    } else if i == 23 {
        reveal_strlit("execute at {player} run summon minecraft:zombie ~ ~ ~");
        lemma_clean_order(COMMANDS@[i].1@, 3);
        3
    } else if i == 24 {
        reveal_strlit("execute at {player} run summon minecraft:zombie ~ ~ ~");
        lemma_clean_order(COMMANDS@[i].1@, 3);
        3
    } else if i == 25 {
        reveal_strlit("execute at {player} run summon minecraft:skeleton ~ ~ ~");
        lemma_clean_order(COMMANDS@[i].1@, 3);
        3
    } else if i == 26 {
        reveal_strlit("execute at {player} run summon minecraft:skeleton ~ ~ ~");
        lemma_clean_order(COMMANDS@[i].1@, 3);
        3
    } else if i == 27 {
        reveal_strlit("execute at {player} run summon minecraft:spider ~ ~ ~");
        lemma_clean_order(COMMANDS@[i].1@, 3);
        3
    } else {
        reveal_strlit("effect give {player} minecraft:levitation 5 3");
        lemma_clean_order(COMMANDS@[i].1@, 1);
        1
    }
}

/// Aiming a template at a player puts the name between its verb and its rest.
#[verifier::spinoff_prover]
proof fn lemma_aimed(template: Seq<char>, k: int, player: Seq<char>)
    requires
        clean_order(template, k),
    ensures
        aimed(template, player) == verbs()[k] + player + template.skip(
            verbs()[k].len() as int + 8,
        ),
        !crate::text::contains(template.skip(verbs()[k].len() as int + 8), "{player}"@),
{
    reveal_strlit("{player}");
    lemma_verbs(k);
    let pat = "{player}"@;
    let verb = verbs()[k];
    let n = verb.len() as int;
    let front = verb + pat;
    assert(template.subrange(0, front.len() as int) == front);
    assert forall|j: int| 0 <= j < front.len() implies template[j] == front[j] by {
        assert(template.subrange(0, front.len() as int)[j] == template[j]);
    }
    assert(template.subrange(n, n + 8) == pat);
    assert forall|j: int| 0 <= j < n implies template[j] != pat[0] by {
        assert(template[j] == verb[j]);
    }
    crate::text::lemma_replace_front(template, pat, player, n);
    let rest = template.skip(n + 8);
    assert forall|i: int| !crate::text::occurs_at(rest, pat, i) by {
        if crate::text::occurs_at(rest, pat, i) {
            assert(rest.subrange(i, i + 8)[0] == template[n + 8 + i]);
            assert(rest.subrange(i, i + 8)[1] == template[n + 8 + i + 1]);
        }
    }
    crate::text::lemma_replace_none(rest, pat, player);
    assert(template.take(n) == verb);
}

/// An aimed template is a proper order.
#[verifier::spinoff_prover]
proof fn lemma_order_is_proper(template: Seq<char>, k: int, player: Seq<char>)
    requires
        clean_order(template, k),
        crate::patterns::username(player),
    ensures
        proper_order(aimed(template, player), player),
{
    lemma_aimed(template, k, player);
    lemma_verbs(k);
    let pat = "{player}"@;
    let verb = verbs()[k];
    let n = verb.len() as int;
    let rest = template.skip(n + 8);
    let order = aimed(template, player);
    assert(order.subrange(0, (verb + player).len() as int) == verb + player);
    assert(crate::text::occurs_at(order, verbs()[k] + player, 0));
    assert forall|i: int| !crate::text::occurs_at(order, pat, i) by {
        if crate::text::occurs_at(order, pat, i) {
            assert(order.subrange(i, i + 8)[0] == order[i]);
            assert(order[i] == '{');
            if i < n {
                assert(order[i] == verb[i]);
            } else if i < n + player.len() {
                assert(order[i] == player[i - n]);
            } else {
                let j = i - n - player.len();
                assert(rest.subrange(j, j + 8) == order.subrange(i, i + 8));
                assert(crate::text::occurs_at(rest, pat, j));
            }
        }
    }
}

/// The letters of an aimed template in lower case: those of the template up to
/// the name, then the name, then those of the template again.
#[verifier::spinoff_prover]
proof fn lemma_lower_order(template: Seq<char>, k: int, player: Seq<char>)
    requires
        clean_order(template, k),
    ensures
        ({
            let n = verbs()[k].len() as int;
            let m = n + player.len();
            let low = lower(aimed(template, player));
            &&& m <= low.len() == template.len() - 8 + player.len()
            &&& n > 0 && low[n - 1] == ' '
            &&& m < low.len() ==> low[m] == ' '
            &&& forall|j: int| 0 <= j < n ==> #[trigger] low[j] == template[j]
            &&& low.subrange(n, m) == lower(player)
            &&& forall|j: int|
                m <= j < low.len() ==> #[trigger] low[j] == template[j - player.len() + 8]
        }),
{
    lemma_aimed(template, k, player);
    lemma_verbs(k);
    let verb = verbs()[k];
    let n = verb.len() as int;
    let m = n + player.len();
    let rest = template.skip(n + 8);
    let order = aimed(template, player);
    let low = lower(order);
    let front = verb + "{player}"@;
    assert(template.subrange(0, front.len() as int) == front);
    assert forall|j: int| 0 <= j < n implies #[trigger] low[j] == template[j] && template[j]
        == verb[j] by {
        assert(template.subrange(0, front.len() as int)[j] == template[j]);
        assert(order[j] == verb[j]);
    }
    assert forall|j: int| m <= j < low.len() implies #[trigger] low[j] == template[j - player.len()
        + 8] by {
        assert(order[j] == rest[j - m]);
    }
    assert(low[n - 1] == ' ');
    assert forall|j: int| 0 <= j < player.len() implies #[trigger] lower(player)[j] == low[n
        + j] by {
        assert(order[n + j] == player[j]);
    }
    assert(low.subrange(n, m) == lower(player));
}

/// A forbidden word in an aimed template stands in the name.
#[verifier::spinoff_prover]
proof fn lemma_harm_is_in_the_name(
    template: Seq<char>,
    k: int,
    player: Seq<char>,
    w: int,
    i: int,
)
    requires
        clean_order(template, k),
        0 <= w < forbidden().len(),
        crate::text::occurs_at(lower(aimed(template, player)), forbidden()[w], i),
    ensures
        crate::text::contains(lower(player), forbidden()[w]),
{
    lemma_lower_order(template, k, player);
    lemma_words(w);
    let n = verbs()[k].len() as int;
    let m = n + player.len();
    let low = lower(aimed(template, player));
    let word = forbidden()[w];
    lemma_word_has_no_space(word, low, i, n - 1);
    lemma_word_has_no_space(word, low, i, m);
    assert(low.subrange(i, i + word.len()) == word);
    assert(word[0] == low[i] && word[1] == low[i + 1] && word[2] == low[i + 2]);
    if i < n {
        assert(begins_harm(template[i], template[i + 1], template[i + 2]));
    } else if i >= m {
        let j = i - player.len() + 8;
        assert(begins_harm(template[j], template[j + 1], template[j + 2]));
    } else {
        let name = low.subrange(n, m);
        assert(i + word.len() <= m);
        assert(name.subrange(i - n, i - n + word.len()) == low.subrange(i, i + word.len()));
        assert(crate::text::occurs_at(lower(player), word, i - n));
    }
}

/// An aimed template holds no forbidden word that the name does not hold.
proof fn lemma_order_is_harmless(template: Seq<char>, k: int, player: Seq<char>)
    requires
        clean_order(template, k),
        harmless(player),
    ensures
        harmless(aimed(template, player)),
{
    let low = lower(aimed(template, player));
    assert forall|w: int| 0 <= w < forbidden().len() implies !crate::text::contains(
        low,
        #[trigger] forbidden()[w],
    ) by {
        if crate::text::contains(low, forbidden()[w]) {
            let i = choose|i: int| crate::text::occurs_at(low, forbidden()[w], i);
            lemma_harm_is_in_the_name(template, k, player, w, i);
        }
    }
}

/// A word without a space does not reach over one.
proof fn lemma_word_has_no_space(word: Seq<char>, s: Seq<char>, i: int, at: int)
    requires
        crate::text::occurs_at(s, word, i),
        !word.contains(' '),
    ensures
        0 <= at < s.len() && s[at] == ' ' ==> i + word.len() <= at || at < i,
{
    if i <= at < i + word.len() {
        assert(s.subrange(i, i + word.len())[at - i] == s[at]);
    }
}

proof fn lemma_orders(id: Seq<char>, player: Seq<char>, n: int)
    requires
        0 <= n <= COMMANDS@.len(),
        crate::patterns::username(player),
    ensures
        forall|k: int|
            0 <= k < orders(id, player, n).len() ==> {
                let order = #[trigger] orders(id, player, n)[k];
                proper_order(order, player) && (harmless(player) ==> harmless(order))
            },
    decreases n,
{
    if n > 0 {
        lemma_orders(id, player, n - 1);
        let template = COMMANDS@[n - 1].1@;
        let verb = lemma_table_is_clean(n - 1);
        lemma_order_is_proper(template, verb, player);
        if harmless(player) {
            lemma_order_is_harmless(template, verb, player);
        }
        let before = orders(id, player, n - 1);
        assert forall|k: int| 0 <= k < orders(id, player, n).len() implies ({
            let order = #[trigger] orders(id, player, n)[k];
            proper_order(order, player) && (harmless(player) ==> harmless(order))
        }) by {
            if k < before.len() {
                assert(orders(id, player, n)[k] == before[k]);
            }
        }
    }
}

/// Every command of every spin for a valid player name gives, adds experience
/// or acts at that player, and nothing is left to fill in.
pub proof fn law_orders_are_proper(player: Seq<char>, i: int, variant_roll: u32, k: int)
    requires
        0 <= i < EFFECTS@.len(),
        0 <= k < spun(player, i, variant_roll).commands.len(),
        crate::patterns::username(player),
    ensures
        proper_order(spun(player, i, variant_roll).commands[k], player),
{
    lemma_orders(EFFECTS@[i].0@, player, COMMANDS@.len() as int);
}

/// No command of any spin touches blocks or inventories: none of the
/// forbidden words stands in it, unless the player's own name holds one.
pub proof fn law_orders_do_no_harm(player: Seq<char>, i: int, variant_roll: u32, k: int)
    requires
        0 <= i < EFFECTS@.len(),
        0 <= k < spun(player, i, variant_roll).commands.len(),
        crate::patterns::username(player),
        harmless(player),
    ensures
        harmless(spun(player, i, variant_roll).commands[k]),
{
    lemma_orders(EFFECTS@[i].0@, player, COMMANDS@.len() as int);
}

proof fn lemma_has_orders(id: Seq<char>, player: Seq<char>, n: int, i: int)
    requires
        0 <= i < n <= COMMANDS@.len(),
        COMMANDS@[i].0@ == id,
    ensures
        orders(id, player, n).len() > 0,
    decreases n,
{
    if n - 1 > i {
        lemma_has_orders(id, player, n - 1, i);
    }
}

/// Every effect does something: each spin has a command.
#[verifier::spinoff_prover]
pub proof fn law_every_spin_has_a_command(player: Seq<char>, i: int, variant_roll: u32)
    requires
        0 <= i < EFFECTS@.len(),
    ensures
        spun(player, i, variant_roll).commands.len() > 0,
{
    // Where the commands of the effect begin in their table.
    let first: int = if i <= 17 {
        i
    } else if i <= 21 {
        i + 2
    } else {
        i + 6
    };
    assert(COMMANDS@[first].0@ == EFFECTS@[i].0@);
    lemma_has_orders(EFFECTS@[i].0@, player, COMMANDS@.len() as int, first);
}

/// A valid player name holds no white space and none of the characters that
/// selectors and command arguments are made of.
pub proof fn law_valid_names_are_plain(name: Seq<char>, c: char)
    requires
        crate::patterns::username(name),
        name.contains(c),
    ensures
        !crate::text::white(c),
        c != '@' && c != '[' && c != ']' && c != '{' && c != '}' && c != '=' && c != '"' && c
            != ';' && c != '/' && c != '~' && c != '.',
{
    let i = choose|i: int| 0 <= i < name.len() && name[i] == c;
    assert(name[i] == c);
}


/// The braces of a line belong to its placeholders, both stand in it, and it
/// begins with the given words, which hold no brace.
spec fn sound(line: Seq<char>, opening: Seq<char>) -> bool {
    &&& crate::fill::braced(line, "{player}"@, "{deed}"@)
    &&& opening.len() <= line.len()
    &&& line.take(opening.len() as int) == opening
    &&& crate::fill::bare(opening)
    &&& crate::text::contains(line, "{player}"@)
    &&& crate::text::contains(line, "{deed}"@)
}

#[verifier::spinoff_prover]
proof fn lemma_blessing_pool(k: int)
    requires
        0 <= k < BLESSING_POOL@.len(),
    ensures
        sound(BLESSING_POOL@[k]@, ":four_leaf_clover: "@),
{
    reveal_strlit("{player}");
    reveal_strlit("{deed}");
    reveal_strlit(":four_leaf_clover: ");
    if k == 0 {
        reveal_strlit(":four_leaf_clover: ¡Gira la Rueda de la Fortuna y sonríe a **{player}**! {deed}. Bendición donde las llaman, según el propio recetario de Matcha.");
        crate::fill::lemma_braced(BLESSING_POOL@[k]@, "{player}"@, 61, "{deed}"@, 73);
    }
    if k == 1 {
        reveal_strlit(":four_leaf_clover: La Rueda de la Fortuna se detiene en buen signo: **{player}** {deed}. Hasta la fortuna tiene sus días generosos.");
        crate::fill::lemma_braced(BLESSING_POOL@[k]@, "{player}"@, 70, "{deed}"@, 81);
    }
    if k == 2 {
        reveal_strlit(":four_leaf_clover: ¡Fortuna favorece a los osados! **{player}** {deed}, bendición que ni el propio recetario de bendiciones de Matcha desdeñaría.");
        crate::fill::lemma_braced(BLESSING_POOL@[k]@, "{player}"@, 53, "{deed}"@, 64);
    }
    if k == 3 {
        reveal_strlit(":four_leaf_clover: La rueda gira y **{player}** {deed}. Que Dulcinea tome nota: hoy el destino fue generoso.");
        crate::fill::lemma_braced(BLESSING_POOL@[k]@, "{player}"@, 37, "{deed}"@, 48);
    }
    assert(BLESSING_POOL@[k]@.take(19) == ":four_leaf_clover: "@);
}

#[verifier::spinoff_prover]
proof fn lemma_minor_curse_pool(k: int)
    requires
        0 <= k < MINOR_CURSE_POOL@.len(),
    ensures
        sound(MINOR_CURSE_POOL@[k]@, ":cloud: "@),
{
    reveal_strlit("{player}");
    reveal_strlit("{deed}");
    reveal_strlit(":cloud: ");
    if k == 0 {
        reveal_strlit(":cloud: La Rueda de la Fortuna tuerce el gesto: **{player}** {deed}. Nada que un buen caldo no cure.");
        crate::fill::lemma_braced(MINOR_CURSE_POOL@[k]@, "{player}"@, 50, "{deed}"@, 61);
    }
    if k == 1 {
        reveal_strlit(":cloud: Pequeño tropiezo del destino: **{player}** {deed}. La rueda también gasta bromas leves.");
        crate::fill::lemma_braced(MINOR_CURSE_POOL@[k]@, "{player}"@, 40, "{deed}"@, 51);
    }
    if k == 2 {
        reveal_strlit(":cloud: La fortuna, traviesa, dispone que **{player}** {deed}. Cosa de nada, ya lo dijo el refrán.");
        crate::fill::lemma_braced(MINOR_CURSE_POOL@[k]@, "{player}"@, 44, "{deed}"@, 55);
    }
    if k == 3 {
        reveal_strlit(":cloud: Gira la rueda y roza apenas: **{player}** {deed}. Molestia menor, hazaña intacta.");
        crate::fill::lemma_braced(MINOR_CURSE_POOL@[k]@, "{player}"@, 39, "{deed}"@, 50);
    }
    assert(MINOR_CURSE_POOL@[k]@.take(8) == ":cloud: "@);
}

#[verifier::spinoff_prover]
proof fn lemma_medium_curse_pool(k: int)
    requires
        0 <= k < MEDIUM_CURSE_POOL@.len(),
    ensures
        sound(MEDIUM_CURSE_POOL@[k]@, ":warning: "@),
{
    reveal_strlit("{player}");
    reveal_strlit("{deed}");
    reveal_strlit(":warning: ");
    if k == 0 {
        reveal_strlit(":warning: La Rueda de la Fortuna aprieta más fuerte: **{player}** {deed}. Empieza la cosa a doler de veras.");
        crate::fill::lemma_braced(MEDIUM_CURSE_POOL@[k]@, "{player}"@, 55, "{deed}"@, 66);
    }
    if k == 1 {
        reveal_strlit(":warning: El destino cobra su peaje: **{player}** {deed}. Sancho recomendaría prudencia a partir de ahora.");
        crate::fill::lemma_braced(MEDIUM_CURSE_POOL@[k]@, "{player}"@, 39, "{deed}"@, 50);
    }
    if k == 2 {
        reveal_strlit(":warning: La rueda gira torcida: **{player}** {deed}. Ya no es broma, vuestra merced.");
        crate::fill::lemma_braced(MEDIUM_CURSE_POOL@[k]@, "{player}"@, 35, "{deed}"@, 46);
    }
    if k == 3 {
        reveal_strlit(":warning: Golpe de mediana fortuna: **{player}** {deed}. La ínsula toma nota del castigo.");
        crate::fill::lemma_braced(MEDIUM_CURSE_POOL@[k]@, "{player}"@, 38, "{deed}"@, 49);
    }
    assert(MEDIUM_CURSE_POOL@[k]@.take(10) == ":warning: "@);
}

#[verifier::spinoff_prover]
proof fn lemma_severe_curse_pool(k: int)
    requires
        0 <= k < SEVERE_CURSE_POOL@.len(),
    ensures
        sound(SEVERE_CURSE_POOL@[k]@, ":skull: "@),
{
    reveal_strlit("{player}");
    reveal_strlit("{deed}");
    reveal_strlit(":skull: ");
    if k == 0 {
        reveal_strlit(":skull: ¡La Rueda de la Fortuna se cobra su tributo más cruel! **{player}** {deed}. Que no se diga que la fortuna no avisa.");
        crate::fill::lemma_braced(SEVERE_CURSE_POOL@[k]@, "{player}"@, 65, "{deed}"@, 76);
    }
    if k == 1 {
        reveal_strlit(":skull: La rueda ha hablado, y sin piedad: **{player}** {deed}. Ni el propio cronista puede mirar sin estremecerse.");
        crate::fill::lemma_braced(SEVERE_CURSE_POOL@[k]@, "{player}"@, 45, "{deed}"@, 56);
    }
    if k == 2 {
        reveal_strlit(":skull: Tiembla la ínsula: **{player}** {deed}. La severa fortuna no conoce de méritos, solo de suerte.");
        crate::fill::lemma_braced(SEVERE_CURSE_POOL@[k]@, "{player}"@, 29, "{deed}"@, 40);
    }
    if k == 3 {
        reveal_strlit(":skull: La rueda gira hacia el abismo: **{player}** {deed}. Que sirva de escarmiento a los demás hidalgos.");
        crate::fill::lemma_braced(SEVERE_CURSE_POOL@[k]@, "{player}"@, 41, "{deed}"@, 52);
    }
    assert(SEVERE_CURSE_POOL@[k]@.take(8) == ":skull: "@);
}

#[verifier::spinoff_prover]
proof fn lemma_deeds(i: int)
    requires
        0 <= i < EFFECTS@.len(),
    ensures
        crate::fill::bare(EFFECTS@[i].2@),
{
    if i == 0 {
        reveal_strlit("recibe tres panes recién horneados, cortesía de la fortuna");
    }
    if i == 1 {
        reveal_strlit("recibe dos filetes de carne asada, banquete de improviso");
    }
    if i == 2 {
        reveal_strlit("recibe dos zanahorias doradas, manjar reservado a los favoritos del destino");
    }
    if i == 3 {
        reveal_strlit("es agraciado con dos niveles de experiencia");
    }
    if i == 4 {
        reveal_strlit("es agraciado con cinco niveles de experiencia, generosidad de la rueda");
    }
    if i == 5 {
        reveal_strlit("siente el viento a favor: velocidad por dos minutos");
    }
    if i == 6 {
        reveal_strlit("encuentra sus manos veloces como las de un herrero, por dos minutos");
    }
    if i == 7 {
        reveal_strlit("siente sanar sus heridas con una bendición pasajera");
    }
    if i == 8 {
        reveal_strlit("recibe dieciséis antorchas para no andar a ciegas por la ínsula");
    }
    if i == 9 {
        reveal_strlit("recibe dieciséis flechas para su carcaj");
    }
    if i == 10 {
        reveal_strlit("gana el Disco Dorado de Ciren, tesoro sonoro del recetario de bendiciones de Matcha");
    }
    if i == 11 {
        reveal_strlit("siente morderle el hambre por medio minuto");
    }
    if i == 12 {
        reveal_strlit("nota las piernas de plomo por medio minuto");
    }
    if i == 13 {
        reveal_strlit("es cegado veinte segundos, castigo leve de la rueda");
    }
    if i == 14 {
        reveal_strlit("atrae a un zombi solitario que sale a su encuentro");
    }
    if i == 15 {
        reveal_strlit("es envenenado por quince segundos");
    }
    if i == 16 {
        reveal_strlit("sufre fatiga en las manos por un minuto entero: picar se vuelve tormento");
    }
    if i == 17 {
        reveal_strlit("es visitado por una cuadrilla de dos zombis y un esqueleto");
    }
    if i == 18 {
        reveal_strlit("es alzado tres segundos por una levitación traviesa");
    }
    if i == 19 {
        reveal_strlit("es marchitado diez segundos, maldición amarga");
    }
    if i == 20 {
        reveal_strlit("es alcanzado por un rayo caído del cielo mismo");
    }
    if i == 21 {
        reveal_strlit("es rodeado por una jauría de dos zombis, dos esqueletos y una araña");
    }
    if i == 22 {
        reveal_strlit("es lanzado a los cielos cinco segundos por la más severa de las levitaciones (unos 22 bloques de caída)");
    }
}

/// Every spin for a player whose name holds no brace names the player and
/// tells the deed, on Discord and in the game, and nothing is left to fill in.
pub proof fn law_spins_name_player_and_deed(player: Seq<char>, i: int, variant_roll: u32)
    requires
        0 <= i < EFFECTS@.len(),
        crate::fill::bare(player),
    ensures
        ({
            let s = spun(player, i, variant_roll);
            let deed = EFFECTS@[i].2@;
            &&& crate::text::contains(s.discord_msg, player)
            &&& crate::text::contains(s.discord_msg, deed)
            &&& crate::fill::bare(s.discord_msg)
            &&& crate::text::contains(s.game_msg, player)
            &&& crate::text::contains(s.game_msg, deed)
            &&& crate::fill::bare(s.game_msg)
        }),
{
    let (_, category, deed) = EFFECTS@[i];
    let line = pool(category)[variant_roll as int % 4]@;
    lemma_line(category, variant_roll as int % 4);
    lemma_game_line();
    lemma_deeds(i);
    lemma_told(line, opening(category), player, deed@);
    lemma_told(
        GAME_MSG_TEMPLATE@,
        "La Rueda de la Fortuna gira para "@,
        player,
        deed@,
    );
}

/// How the lines of a category begin.
spec fn opening(category: Category) -> Seq<char> {
    match category {
        Category::Blessing => ":four_leaf_clover: "@,
        Category::MinorCurse => ":cloud: "@,
        Category::MediumCurse => ":warning: "@,
        Category::SevereCurse => ":skull: "@,
    }
}

#[verifier::spinoff_prover]
proof fn lemma_line(category: Category, k: int)
    requires
        0 <= k < 4,
    ensures
        sound(pool(category)[k]@, opening(category)),
{
    match category {
        Category::Blessing => lemma_blessing_pool(k),
        Category::MinorCurse => lemma_minor_curse_pool(k),
        Category::MediumCurse => lemma_medium_curse_pool(k),
        Category::SevereCurse => lemma_severe_curse_pool(k),
    }
}

#[verifier::spinoff_prover]
proof fn lemma_game_line()
    ensures
        sound(GAME_MSG_TEMPLATE@, "La Rueda de la Fortuna gira para "@),
{
    reveal_strlit("{player}");
    reveal_strlit("{deed}");
    reveal_strlit("La Rueda de la Fortuna gira para ");
    reveal_strlit("La Rueda de la Fortuna gira para {player}: {deed}.");
    crate::fill::lemma_braced(GAME_MSG_TEMPLATE@, "{player}"@, 33, "{deed}"@, 43);
    assert(GAME_MSG_TEMPLATE@.take(33) == "La Rueda de la Fortuna gira para "@);
}

#[verifier::spinoff_prover]
proof fn lemma_placeholders()
    ensures
        crate::fill::told_apart("{player}"@, "{deed}"@),
{
    reveal_strlit("{player}");
    reveal_strlit("{deed}");
}

/// A sound line names the player and tells the deed once filled in.
#[verifier::spinoff_prover]
proof fn lemma_told(line: Seq<char>, opening: Seq<char>, player: Seq<char>, deed: Seq<char>)
    requires
        sound(line, opening),
        crate::fill::bare(player),
        crate::fill::bare(deed),
    ensures
        crate::text::contains(told(line, player, deed), player),
        crate::text::contains(told(line, player, deed), deed),
        crate::fill::bare(told(line, player, deed)),
{
    lemma_placeholders();
    let (p, q) = ("{player}"@, "{deed}"@);
    let i = choose|i: int| crate::text::occurs_at(line, p, i);
    let j = choose|j: int| crate::text::occurs_at(line, q, j);
    crate::fill::lemma_fill_keeps_first(line, p, player, q, deed, i);
    crate::fill::lemma_fill_keeps_second(line, p, player, q, deed, j);
    crate::fill::lemma_fill_leaves_no_brace(line, p, player, q, deed);
}

/// What every spin promises, whatever the hour and the rolls, for a valid
/// player name that holds no forbidden word itself.
pub proof fn law_every_spin(player: Seq<char>, hours: u32, a: u32, b: u32, c: u32)
    requires
        crate::patterns::username(player),
        harmless(player),
    ensures
        ({
            let s = outcome(player, hours, a, b, c);
            &&& s.commands.len() > 0
            &&& forall|k: int|
                0 <= k < s.commands.len() ==> proper_order(#[trigger] s.commands[k], player)
                    && harmless(s.commands[k])
            &&& crate::text::contains(s.discord_msg, player)
            &&& crate::text::contains(s.game_msg, player)
            &&& !crate::text::contains(s.discord_msg, "{player}"@)
            &&& !crate::text::contains(s.discord_msg, "{deed}"@)
            &&& !crate::text::contains(s.game_msg, "{player}"@)
            &&& !crate::text::contains(s.game_msg, "{deed}"@)
        }),
{
    let category = category_of(weights(hours as int), a);
    let m = members(category, EFFECTS@.len() as int);
    let i = picked(category, b);
    law_every_category_has_effects(category);
    let at = b as int % m.len() as int;
    assert(0 <= at < m.len());
    assert(i == m[at]);
    assert forall|j: int| 0 <= j < player.len() implies #[trigger] player[j] != '{' by {}
    law_every_spin_has_a_command(player, i, c);
    law_spins_name_player_and_deed(player, i, c);
    let s = spun(player, i, c);
    lemma_placeholders();
    crate::fill::lemma_bare_holds_no_placeholder(s.discord_msg, "{player}"@);
    crate::fill::lemma_bare_holds_no_placeholder(s.discord_msg, "{deed}"@);
    crate::fill::lemma_bare_holds_no_placeholder(s.game_msg, "{player}"@);
    crate::fill::lemma_bare_holds_no_placeholder(s.game_msg, "{deed}"@);
    assert forall|k: int| 0 <= k < s.commands.len() implies proper_order(
        #[trigger] s.commands[k],
        player,
    ) && harmless(s.commands[k]) by {
        law_orders_are_proper(player, i, c, k);
        law_orders_do_no_harm(player, i, c, k);
    }
}

/// The table in parts: the effects of one category stand together.
pub proof fn law_effects_by_category(i: int)
    requires
        0 <= i < EFFECTS@.len(),
    ensures
        EFFECTS@.len() == 23,
        EFFECTS@[i].1 == Category::Blessing <==> i < 11,
        EFFECTS@[i].1 == Category::MinorCurse <==> 11 <= i < 15,
        EFFECTS@[i].1 == Category::MediumCurse <==> 15 <= i < 19,
        EFFECTS@[i].1 == Category::SevereCurse <==> 19 <= i,
{
}

/// What the rolls of a spin decide. The first lands on a category by the
/// weights of the hour; the second picks the effect, counting through those
/// of the table that have this category; and the spin is that effect's, with
/// the third roll for the line.
pub proof fn law_the_rolls_decide(player: Seq<char>, hours: u32, a: u32, b: u32, c: u32)
    ensures
        ({
            let s = outcome(player, hours, a, b, c);
            let w = weights(hours as int);
            let r = a as int % 100;
            let candidates = EFFECTS@.filter(
                |e: (&'static str, Category, &'static str)| e.1 == s.category,
            );
            &&& s.category == category_of(w, a)
            &&& s.category == Category::Blessing <==> r < w[0]
            &&& s.category == Category::MinorCurse <==> w[0] <= r < w[0] + w[1]
            &&& s.category == Category::MediumCurse <==> w[0] + w[1] <= r < w[0] + w[1] + w[2]
            &&& s.category == Category::SevereCurse <==> w[0] + w[1] + w[2] <= r
            &&& candidates.len() > 0
            &&& s.effect_id == candidates[b as int % candidates.len() as int].0@
            &&& exists|i: int|
                0 <= i < EFFECTS@.len() && EFFECTS@[i] == candidates[b as int
                    % candidates.len() as int] && s == #[trigger] spun(player, i, c)
        }),
{
    let category = category_of(weights(hours as int), a);
    let n = EFFECTS@.len() as int;
    let m = members(category, n);
    law_every_category_has_effects(category);
    let at = b as int % m.len() as int;
    assert(0 <= at < m.len());
    let i = m[at];
    lemma_members_are_filtered(category, n);
    assert(EFFECTS@.take(n) == EFFECTS@);
    let candidates = EFFECTS@.filter(
        |e: (&'static str, Category, &'static str)| e.1 == category,
    );
    assert(m.map_values(|k: int| EFFECTS@[k]).len() == m.len());
    assert(m.map_values(|k: int| EFFECTS@[k])[at] == EFFECTS@[i]);
    assert(outcome(player, hours, a, b, c) == spun(player, i, c));
}

proof fn lemma_members_are_filtered(category: Category, n: int)
    requires
        0 <= n <= EFFECTS@.len(),
    ensures
        members(category, n).map_values(|k: int| EFFECTS@[k]) == EFFECTS@.take(n).filter(
            |e: (&'static str, Category, &'static str)| e.1 == category,
        ),
    decreases n,
{
    reveal(Seq::filter);
    let f = |k: int| EFFECTS@[k];
    let pred = |e: (&'static str, Category, &'static str)| e.1 == category;
    if n == 0 {
        assert(members(category, n).map_values(f) == EFFECTS@.take(n).filter(pred));
    } else {
        lemma_members_are_filtered(category, n - 1);
        let entries = EFFECTS@.take(n);
        assert(entries.drop_last() == EFFECTS@.take(n - 1));
        assert(entries.last() == EFFECTS@[n - 1]);
        if EFFECTS@[n - 1].1 == category {
            assert(members(category, n).map_values(f) == members(category, n - 1).map_values(
                f,
            ).push(EFFECTS@[n - 1]));
        }
    }
}

/// What a spin is made of: the effect's own id and category, its own console
/// commands in the order of the table with the player's name put in, and the
/// words for it. The line on Discord is one of the category's four, by the
/// roll; in the game the same is said of every effect.
pub proof fn law_a_spin_is_its_effects_own(player: Seq<char>, i: int, c: u32)
    requires
        0 <= i < EFFECTS@.len(),
    ensures
        ({
            let s = spun(player, i, c);
            let (id, category, deed) = EFFECTS@[i];
            let line = match category {
                Category::Blessing => BLESSING_POOL@[c as int % 4],
                Category::MinorCurse => MINOR_CURSE_POOL@[c as int % 4],
                Category::MediumCurse => MEDIUM_CURSE_POOL@[c as int % 4],
                Category::SevereCurse => SEVERE_CURSE_POOL@[c as int % 4],
            };
            &&& s.effect_id == id@
            &&& s.category == category
            &&& s.commands == COMMANDS@.filter(
                |e: (&'static str, &'static str)| e.0@ == id@,
            ).map_values(
                |e: (&'static str, &'static str)|
                    crate::text::replace_all(e.1@, "{player}"@, player),
            )
            &&& s.discord_msg == crate::text::replace_all(
                crate::text::replace_all(line@, "{player}"@, player),
                "{deed}"@,
                deed@,
            )
        }),
{
    let n = COMMANDS@.len() as int;
    lemma_orders_are_filtered(EFFECTS@[i].0, player, n);
    assert(COMMANDS@.take(n) == COMMANDS@);
}

proof fn lemma_orders_are_filtered(id: &'static str, player: Seq<char>, n: int)
    requires
        0 <= n <= COMMANDS@.len(),
    ensures
        orders(id@, player, n) == COMMANDS@.take(n).filter(
            |e: (&'static str, &'static str)| e.0@ == id@,
        ).map_values(
            |e: (&'static str, &'static str)| crate::text::replace_all(e.1@, "{player}"@, player),
        ),
    decreases n,
{
    reveal(Seq::filter);
    let f = |e: (&'static str, &'static str)|
        crate::text::replace_all(e.1@, "{player}"@, player);
    let pred = |e: (&'static str, &'static str)| e.0@ == id@;
    if n == 0 {
        assert(orders(id@, player, n) == COMMANDS@.take(n).filter(pred).map_values(f));
    } else {
        lemma_orders_are_filtered(id, player, n - 1);
        let entries = COMMANDS@.take(n);
        assert(entries.drop_last() == COMMANDS@.take(n - 1));
        assert(entries.last() == COMMANDS@[n - 1]);
        let fewer = COMMANDS@.take(n - 1).filter(pred);
        if COMMANDS@[n - 1].0@ == id@ {
            assert(fewer.push(COMMANDS@[n - 1]).map_values(f) == fewer.map_values(f).push(
                f(COMMANDS@[n - 1]),
            ));
        }
    }
}

/// On Discord a spin is announced in the category's own way, whoever the
/// player is: with the clover for a blessing, and with the cloud, the warning
/// and the skull for the curses.
pub proof fn law_every_category_has_its_opening(player: Seq<char>, i: int, c: u32)
    requires
        0 <= i < EFFECTS@.len(),
    ensures
        ({
            let said = spun(player, i, c).discord_msg;
            match EFFECTS@[i].1 {
                Category::Blessing => crate::text::occurs_at(said, ":four_leaf_clover: "@, 0),
                Category::MinorCurse => crate::text::occurs_at(said, ":cloud: "@, 0),
                Category::MediumCurse => crate::text::occurs_at(said, ":warning: "@, 0),
                Category::SevereCurse => crate::text::occurs_at(said, ":skull: "@, 0),
            }
        }),
{
    let (_, category, deed) = EFFECTS@[i];
    let k = c as int % 4;
    lemma_line(category, k);
    lemma_placeholders();
    let n = opening(category).len() as int;
    crate::fill::lemma_fill_keeps_opening(
        pool(category)[k]@,
        "{player}"@,
        player,
        "{deed}"@,
        deed@,
        n,
    );
    let said = spun(player, i, c).discord_msg;
    assert(said.subrange(0, n) == said.take(n));
}

/// In the game every spin is told in the same words around the player's name
/// and the deed, for every name that holds no brace.
pub proof fn law_what_the_game_is_told(player: Seq<char>, i: int, c: u32)
    requires
        0 <= i < EFFECTS@.len(),
        crate::fill::bare(player),
    ensures
        spun(player, i, c).game_msg == "La Rueda de la Fortuna gira para "@ + player + ": "@
            + EFFECTS@[i].2@ + "."@,
{
    reveal_strlit("La Rueda de la Fortuna gira para {player}: {deed}.");
    reveal_strlit("La Rueda de la Fortuna gira para ");
    reveal_strlit(": ");
    reveal_strlit(".");
    reveal_strlit("{player}");
    reveal_strlit("{deed}");
    let (p, q) = ("{player}"@, "{deed}"@);
    let deed = EFFECTS@[i].2@;
    let t = GAME_MSG_TEMPLATE@;
    assert(t.subrange(33, 41) == p);
    crate::text::lemma_replace_front(t, p, player, 33);
    let tail = t.skip(41);
    assert forall|j: int| !crate::text::occurs_at(tail, p, j) by {
        if crate::text::occurs_at(tail, p, j) {
            assert(tail.subrange(j, j + 8)[0] == '{');
            assert(tail.subrange(j, j + 8)[1] == 'p');
        }
    }
    crate::text::lemma_replace_none(tail, p, player);
    let named = t.take(33) + player + tail;
    let at = player.len() as int + 35;
    assert(named.subrange(at, at + 6) == q);
    assert forall|j: int| 0 <= j < at implies named[j] != q[0] by {
        if 33 <= j < 33 + player.len() {
            assert(named[j] == player[j - 33]);
        }
    }
    crate::text::lemma_replace_front(named, q, deed, at);
    let last = named.skip(at + 6);
    assert(last == "."@);
    assert forall|j: int| !crate::text::occurs_at(last, q, j) by {}
    crate::text::lemma_replace_none(last, q, deed);
    assert(named.take(at) == "La Rueda de la Fortuna gira para "@ + player + ": "@);
}

} // verus!
