//! Core rules of a small party-based dungeon RPG: items and inventories,
//! party members and their growth, spells, enemies and encounter tables,
//! the turn-based combat engine, grid movement and cave generation.

pub mod item;
pub mod inventory;
pub mod equipment;
pub mod formula;
pub mod spell;
pub mod stats;
pub mod party;
pub mod character_table;
pub mod party_data;
pub mod party_spells;
pub mod terrain;
pub mod enemy;
pub mod battle_spell;
pub mod battle_spell_table;
pub mod combat;
pub mod battle_actions;
pub mod battle_turn;
pub mod cave;
pub mod battle_messages;
pub mod world;
pub mod menu_keys;
pub mod field_spell;
pub mod battle_input;
pub mod field_menu;
pub mod battle_rewards;
pub mod battle_checks;
pub mod battle_screen;
pub mod cave_chests;
pub mod battle_status;
pub mod turn_laws;
pub mod fall_laws;
