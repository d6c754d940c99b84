# changeset-operations

Release management for Cargo projects driven by changesets: each changeset
names packages and the bump they need, and the operations here turn the
pending changesets into a release plan, validate release configuration,
keep pre-release and graduation state, and run a release as a saga of
steps that can be rolled back.

The library in `src/` is written in Verus. Every operation carries a
contract, and the properties that span operations (a parsed pre-release tag
writes back to the same text, planned packages survive dependency
expansion, validation errors keep their order, and so on) are public proof
functions whose names start with `law_`.

Layout:

- `src/version.rs`, `src/text.rs`: versions, bumps and the string helpers
  the rest builds on.
- `src/model.rs`, `src/config.rs`, `src/git.rs`, `src/graph.rs`,
  `src/changelog.rs`: the data the operations read and write.
- `src/planner.rs`, `src/none_bump.rs`, `src/versioning.rs`,
  `src/changelog_plan.rs`: release planning.
- `src/validator.rs`, `src/release_state.rs`: release configuration and
  pre-release / graduation state.
- `src/traits.rs`: the services (file system, git, manifests, prompts)
  that applications implement.
- `src/add.rs`, `src/status.rs`, `src/verify.rs`, `src/verification.rs`,
  `src/manage.rs`, `src/additional_packages.rs`, `src/init.rs`,
  `src/release.rs`, `src/saga.rs`: the operations.
- `app/`: the interactive loops that drive the step functions of the
  menu-based operations, and error display.
- `tests/`: behaviour tests against mock services.
