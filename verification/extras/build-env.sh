#!/bin/sh
# Runs a command with the identity of this build in its environment:
#
#     extras/build-env.sh cargo build --release
#
# GIT_SHA is the short hash of the commit and GIT_LOG the last twelve commits,
# one per line, newest first, hash and subject with U+001E between them. Where
# git or the repository is missing both stay unset, and GIT_SHA_ARG and
# GIT_LOG_ARG, if the environment has them, take their place.

unset GIT_SHA GIT_LOG

if sha=$(git rev-parse --short=7 HEAD 2>/dev/null) && [ -n "$sha" ]; then
    GIT_SHA=$sha
    export GIT_SHA
fi

if log=$(git log -12 --format=%h%x1e%s 2>/dev/null) && [ -n "$log" ]; then
    GIT_LOG=$log
    export GIT_LOG
fi

exec "$@"
