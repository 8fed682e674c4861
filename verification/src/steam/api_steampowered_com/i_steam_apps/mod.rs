pub mod get_app_list;
