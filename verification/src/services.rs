pub mod post_service;
