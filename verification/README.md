# vapor

An inventory library over the AWS service APIs (DMS, DynamoDB, EC2, ECR,
ECS, EFS, EKS, Elastic Beanstalk, ElastiCache, ELBv2, EMR, EventBridge,
Firehose, FMS, FSx, Global Accelerator, Glue, GuardDuty, Health, IAM,
Inspector, IoT).

- `src/` is the verified library (Verus). It holds the decisions every
  client method makes: the caller-driven pagination loop (`pagination`:
  page sizing from `limit`, clamping, local truncation, continuation
  tokens, when to stop), the filters and parameters of each request, the
  conversion of DynamoDB attribute values to JSON, the gathering of ECR
  scan findings, the batched ECS describe calls, the IoT thing-group
  describe fan-out, and the records handed back to callers.
- `app/` holds the AWS clients themselves: each async method sends the
  requests the library plans and feeds the replies back to it.
- `tests/` exercises the library.
