pub mod avr;
pub mod build_info;
pub mod code_intel;
pub mod bytes;
pub mod compile_fixes;
pub mod domain;
pub mod fjall;
pub mod fjall_mr;
pub mod fluo_pcj;
pub mod indexing;
pub mod intparse;
pub mod legacy;
pub mod manual;
pub mod merger;
pub mod mr_output;
pub mod partition;
pub mod pcj;
pub mod pcj_indexing;
pub mod query;
pub mod reasoning;
pub mod release_audit;
pub mod resolver;
pub mod server;
pub mod seqs;
pub mod sorted;
pub mod strmap;
pub mod text;
pub mod words;
