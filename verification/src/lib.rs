//! Verified core of the `vapor` AWS inventory library: pagination control,
//! request planning and record shaping for the AWS service clients.

pub mod dms;
pub mod dynamodb;
pub mod ec2;
pub mod ecr;
pub mod ecs;
pub mod elastic_beanstalk;
pub mod elasticache;
pub mod emr;
pub mod error;
pub mod firehose;
pub mod fsx;
pub mod health;
pub mod iam;
pub mod inspector;
pub mod iot;
pub mod pagination;
pub mod records;
pub mod request;
pub mod text;
pub mod time;
