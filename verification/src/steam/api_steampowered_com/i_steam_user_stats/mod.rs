pub mod get_schema_for_game;
